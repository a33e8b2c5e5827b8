//! The flat command-line argument set and its reduction to a single command.
//! Reading the flags from the process arguments happens outside this library;
//! deciding which command they denote is the part with fixed rules.

use vstd::prelude::*;

verus! {

/// The flat argument set of the command-line surface.
pub struct Args {
    /// Optional spec or profile name (profiles are checked first).
    pub spec_or_profile: Option<String>,
    /// Display specifications to try, in order of preference.
    pub spec: Vec<String>,
    /// Force an exact match instead of the closest match.
    pub exact: bool,
    /// List available display specifications.
    pub list: bool,
    /// Output in JSON format (used with listing).
    pub json: bool,
    /// Create a named profile.
    pub create_profile: Option<String>,
    /// Switch to a named profile.
    pub profile: Option<String>,
    /// List all available profiles.
    pub list_profiles: bool,
    /// Display the current display specification.
    pub current: bool,
}

/// The single command the flat arguments reduce to.
#[derive(Debug, PartialEq, Eq)]
pub enum ParsedArgs {
    Switch { spec: Vec<String>, exact: bool },
    List { spec: Option<String>, json: bool },
    CreateProfile { name: String, spec: Vec<String> },
    Profile { name: String },
    ListProfiles,
    Current { json: bool },
    /// A positional argument that could name either a profile or a spec.
    SpecOrProfile { value: String, exact: bool },
}

/// Which command the flat arguments denote. The first set flag wins, in the
/// fixed priority order: current, list-profiles, create-profile, profile,
/// list, positional argument, switch. A positional argument beside explicit
/// specs is combined with them, ahead of them in preference order.
pub open spec fn parsed_args_correct(args: Args, r: ParsedArgs) -> bool {
    if args.current {
        r == (ParsedArgs::Current { json: args.json })
    } else if args.list_profiles {
        r == ParsedArgs::ListProfiles
    } else if args.create_profile is Some {
        r == (ParsedArgs::CreateProfile { name: args.create_profile->0, spec: args.spec })
    } else if args.profile is Some {
        r == (ParsedArgs::Profile { name: args.profile->0 })
    } else if args.list {
        r matches ParsedArgs::List { spec, json } && ({
            &&& json == args.json
            &&& args.spec@.len() == 0 ==> spec is None
            &&& args.spec@.len() > 0 ==> (spec matches Some(s) && s@ == args.spec@[0]@)
        })
    } else if args.spec_or_profile is Some {
        if args.spec@.len() == 0 {
            r == (ParsedArgs::SpecOrProfile {
                value: args.spec_or_profile->0,
                exact: args.exact,
            })
        } else {
            r matches ParsedArgs::Switch { spec, exact } && ({
                &&& exact == args.exact
                &&& spec@ == seq![args.spec_or_profile->0] + args.spec@
            })
        }
    } else {
        r == (ParsedArgs::Switch { spec: args.spec, exact: args.exact })
    }
}

impl Args {
    /// Reduce the flat flags to the single command they denote.
    pub fn into_parsed_args(self) -> (r: ParsedArgs)
        ensures
            parsed_args_correct(self, r),
    {
        let ghost args = self;
        if self.current {
            ParsedArgs::Current { json: self.json }
        } else if self.list_profiles {
            ParsedArgs::ListProfiles
        } else if let Some(name) = self.create_profile {
            ParsedArgs::CreateProfile { name, spec: self.spec }
        } else if let Some(name) = self.profile {
            ParsedArgs::Profile { name }
        } else if self.list {
            let spec = if self.spec.len() > 0 {
                Some(self.spec[0].clone())
            } else {
                None
            };
            ParsedArgs::List { spec, json: self.json }
        } else if let Some(value) = self.spec_or_profile {
            // With a positional argument and no explicit specs, it may name
            // either a spec or a profile
            if self.spec.len() == 0 {
                ParsedArgs::SpecOrProfile { value, exact: self.exact }
            } else {
                // With both, combine them: the positional argument first
                let mut all_specs: Vec<String> = Vec::new();
                all_specs.push(value);
                let mut rest = self.spec;
                all_specs.append(&mut rest);
                proof {
                    assert(all_specs@ =~= seq![args.spec_or_profile->0] + args.spec@);
                }
                ParsedArgs::Switch { spec: all_specs, exact: self.exact }
            }
        } else {
            ParsedArgs::Switch { spec: self.spec, exact: self.exact }
        }
    }
}

} // verus!
