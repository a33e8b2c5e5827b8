//! Textual rendering of specifications and modes: `{width}x{height}` or
//! `{wratio}:{hratio}`, optionally suffixed `@{rate}hz`, e.g. "1920x1080@60hz"
//! or "16:9". Rates render as whole hertz with up to three fractional digits,
//! trailing zeros dropped (60000 mHz is "60", 59940 mHz is "59.94").

use vstd::prelude::*;

use crate::display::{DisplayMode, DisplaySpec};
use vstd::string::StringExecFns;

verus! {

/// The decimal digit character for `d`.
pub open spec fn digit_char(d: nat) -> char
    recommends
        d < 10,
{
    if d == 0 {
        '0'
    } else if d == 1 {
        '1'
    } else if d == 2 {
        '2'
    } else if d == 3 {
        '3'
    } else if d == 4 {
        '4'
    } else if d == 5 {
        '5'
    } else if d == 6 {
        '6'
    } else if d == 7 {
        '7'
    } else if d == 8 {
        '8'
    } else {
        '9'
    }
}

/// The decimal digits of `n`, most significant first, no leading zeros.
pub open spec fn decimal_chars(n: nat) -> Seq<char>
    decreases n,
{
    if n < 10 {
        seq![digit_char(n)]
    } else {
        decimal_chars(n / 10).push(digit_char(n % 10))
    }
}

/// A rate in millihertz renders as its whole hertz, then up to three
/// fractional digits with trailing zeros dropped.
pub open spec fn rate_chars(mhz: u32) -> Seq<char> {
    let whole = decimal_chars(mhz as nat / 1000);
    let f = mhz as nat % 1000;
    if f == 0 {
        whole
    } else if f % 100 == 0 {
        whole + seq!['.', digit_char(f / 100)]
    } else if f % 10 == 0 {
        whole + seq!['.', digit_char(f / 100), digit_char((f / 10) % 10)]
    } else {
        whole + seq!['.', digit_char(f / 100), digit_char((f / 10) % 10), digit_char(f % 10)]
    }
}

/// A concrete mode renders as `{width}x{height}@{rate}hz`.
pub open spec fn mode_chars(m: DisplayMode) -> Seq<char> {
    decimal_chars(m.width as nat) + seq!['x'] + decimal_chars(m.height as nat) + seq!['@']
        + rate_chars(m.refresh_millihertz) + seq!['h', 'z']
}

/// A specification renders as its resolution or ratio, optionally suffixed
/// `@{rate}hz`; a rate alone renders as `{rate}hz`; an empty specification
/// renders as the empty string.
pub open spec fn display_spec_chars(s: DisplaySpec) -> Seq<char> {
    let rate_part = match s.refresh_millihertz {
        Some(r) => seq!['@'] + rate_chars(r) + seq!['h', 'z'],
        None => Seq::<char>::empty(),
    };
    if s.width is Some && s.height is Some {
        decimal_chars(s.width->0 as nat) + seq!['x'] + decimal_chars(s.height->0 as nat)
            + rate_part
    } else if s.aspect_ratio is Some {
        let ratio = s.aspect_ratio->0;
        decimal_chars(ratio.0 as nat) + seq![':'] + decimal_chars(ratio.1 as nat) + rate_part
    } else if s.refresh_millihertz is Some {
        rate_chars(s.refresh_millihertz->0) + seq!['h', 'z']
    } else {
        Seq::<char>::empty()
    }
}

fn digit_str(d: u32) -> (s: &'static str)
    requires
        d < 10,
    ensures
        s@ == seq![digit_char(d as nat)],
{
    match d {
        0 => {
            proof {
                reveal_strlit("0");
                assert("0"@ =~= seq![digit_char(0)]);
            }
            "0"
        },
        1 => {
            proof {
                reveal_strlit("1");
                assert("1"@ =~= seq![digit_char(1)]);
            }
            "1"
        },
        2 => {
            proof {
                reveal_strlit("2");
                assert("2"@ =~= seq![digit_char(2)]);
            }
            "2"
        },
        3 => {
            proof {
                reveal_strlit("3");
                assert("3"@ =~= seq![digit_char(3)]);
            }
            "3"
        },
        4 => {
            proof {
                reveal_strlit("4");
                assert("4"@ =~= seq![digit_char(4)]);
            }
            "4"
        },
        5 => {
            proof {
                reveal_strlit("5");
                assert("5"@ =~= seq![digit_char(5)]);
            }
            "5"
        },
        6 => {
            proof {
                reveal_strlit("6");
                assert("6"@ =~= seq![digit_char(6)]);
            }
            "6"
        },
        7 => {
            proof {
                reveal_strlit("7");
                assert("7"@ =~= seq![digit_char(7)]);
            }
            "7"
        },
        8 => {
            proof {
                reveal_strlit("8");
                assert("8"@ =~= seq![digit_char(8)]);
            }
            "8"
        },
        _ => {
            proof {
                reveal_strlit("9");
                assert("9"@ =~= seq![digit_char(9)]);
            }
            "9"
        },
    }
}

/// The decimal rendering of `n`.
pub fn render_u32(n: u32) -> (s: String)
    ensures
        s@ == decimal_chars(n as nat),
    decreases n,
{
    if n < 10 {
        digit_str(n).to_owned()
    } else {
        let mut s = render_u32(n / 10);
        s.append(digit_str(n % 10));
        proof {
            assert(s@ =~= decimal_chars(n as nat));
        }
        s
    }
}

/// The rendering of a rate in millihertz.
fn render_rate(mhz: u32) -> (s: String)
    ensures
        s@ == rate_chars(mhz),
{
    let mut s = render_u32(mhz / 1000);
    let f = mhz % 1000;
    if f == 0 {
        return s;
    }
    proof {
        reveal_strlit(".");
    }
    s.append(".");
    s.append(digit_str(f / 100));
    if f % 100 == 0 {
        proof {
            assert(s@ =~= rate_chars(mhz));
        }
        return s;
    }
    s.append(digit_str((f / 10) % 10));
    if f % 10 == 0 {
        proof {
            assert(s@ =~= rate_chars(mhz));
        }
        return s;
    }
    s.append(digit_str(f % 10));
    proof {
        assert(s@ =~= rate_chars(mhz));
    }
    s
}

impl DisplayMode {
    /// The textual rendering `{width}x{height}@{rate}hz`.
    pub fn render(&self) -> (s: String)
        ensures
            s@ == mode_chars(*self),
    {
        proof {
            reveal_strlit("x");
            reveal_strlit("@");
            reveal_strlit("hz");
        }
        let mut s = render_u32(self.width);
        s.append("x");
        let h = render_u32(self.height);
        s.append(h.as_str());
        s.append("@");
        let r = render_rate(self.refresh_millihertz);
        s.append(r.as_str());
        s.append("hz");
        proof {
            assert(s@ =~= mode_chars(*self));
        }
        s
    }
}

impl DisplaySpec {
    /// The textual rendering: resolution or ratio, optionally `@{rate}hz`;
    /// a rate alone as `{rate}hz`; the empty specification as "".
    pub fn render(&self) -> (s: String)
        ensures
            s@ == display_spec_chars(*self),
    {
        proof {
            reveal_strlit("x");
            reveal_strlit(":");
            reveal_strlit("@");
            reveal_strlit("hz");
            reveal_strlit("");
        }
        let mut s = String::new();
        if let (Some(width), Some(height)) = (self.width, self.height) {
            let w = render_u32(width);
            s.append(w.as_str());
            s.append("x");
            let h = render_u32(height);
            s.append(h.as_str());
        } else if let Some((w_ratio, h_ratio)) = self.aspect_ratio {
            let w = render_u32(w_ratio);
            s.append(w.as_str());
            s.append(":");
            let h = render_u32(h_ratio);
            s.append(h.as_str());
        } else {
            if let Some(rate) = self.refresh_millihertz {
                let r = render_rate(rate);
                s.append(r.as_str());
                s.append("hz");
                proof {
                    assert(s@ =~= display_spec_chars(*self));
                }
                return s;
            }
            proof {
                assert(s@ =~= display_spec_chars(*self));
            }
            return s;
        }
        if let Some(rate) = self.refresh_millihertz {
            s.append("@");
            let r = render_rate(rate);
            s.append(r.as_str());
            s.append("hz");
        }
        proof {
            assert(s@ =~= display_spec_chars(*self));
        }
        s
    }
}

} // verus!
