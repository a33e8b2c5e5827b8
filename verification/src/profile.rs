//! The profile store: named lists of display specifications, with unique
//! names kept in byte-lexicographic order, as Rust orders strings. Reading
//! the store from disk and writing it back happen outside this library; the
//! map semantics are the part with fixed rules.

use vstd::prelude::*;

use crate::display::DisplaySpec;
use vstd::string::StringSliceAdditionalSpecFns;
use vstd::utf8::encode_utf8;

verus! {

/// The failures the profile store signals.
#[derive(Debug, Clone, Copy, PartialEq, Eq)]
pub enum ProfileError {
    /// No profile of the given name exists.
    NotFound,
    /// A profile must have at least one display specification.
    EmptyProfile,
}

/// The key a profile name is compared and ordered by: its UTF-8 bytes.
pub open spec fn name_key(name: Seq<char>) -> Seq<u8> {
    encode_utf8(name)
}

/// Byte-lexicographic order: a proper prefix comes first, otherwise the
/// first differing byte decides.
pub open spec fn lex_lt(a: Seq<u8>, b: Seq<u8>) -> bool
    decreases a.len(),
{
    if b.len() == 0 {
        false
    } else if a.len() == 0 {
        true
    } else if a[0] < b[0] {
        true
    } else if a[0] > b[0] {
        false
    } else {
        lex_lt(a.skip(1), b.skip(1))
    }
}

proof fn lemma_lex_lt_irrefl(a: Seq<u8>)
    ensures
        !lex_lt(a, a),
    decreases a.len(),
{
    if a.len() > 0 {
        lemma_lex_lt_irrefl(a.skip(1));
    }
}

proof fn lemma_lex_lt_total(a: Seq<u8>, b: Seq<u8>)
    ensures
        lex_lt(a, b) || lex_lt(b, a) || a == b,
    decreases a.len(),
{
    if a.len() == 0 && b.len() == 0 {
        assert(a =~= b);
    } else if a.len() > 0 && b.len() > 0 && a[0] == b[0] {
        lemma_lex_lt_total(a.skip(1), b.skip(1));
        if a.skip(1) == b.skip(1) {
            assert(a.skip(1).len() == b.skip(1).len());
            assert(a.len() == b.len());
            assert forall|i: int| 0 <= i < a.len() implies a[i] == b[i] by {
                if i > 0 {
                    assert(a[i] == a.skip(1)[i - 1]);
                    assert(b[i] == b.skip(1)[i - 1]);
                }
            }
            assert(a =~= b);
        }
    }
}

proof fn lemma_lex_lt_trans(a: Seq<u8>, b: Seq<u8>, c: Seq<u8>)
    requires
        lex_lt(a, b),
        lex_lt(b, c),
    ensures
        lex_lt(a, c),
    decreases a.len(),
{
    if a.len() > 0 {
        if a[0] == b[0] && b[0] == c[0] {
            lemma_lex_lt_trans(a.skip(1), b.skip(1), c.skip(1));
        }
    }
}

/// If two byte sequences agree on their first `i` bytes, their order is
/// decided by what follows.
proof fn lemma_lex_lt_skip(a: Seq<u8>, b: Seq<u8>, i: int)
    requires
        0 <= i <= a.len(),
        i <= b.len(),
        forall|j: int| 0 <= j < i ==> a[j] == b[j],
    ensures
        lex_lt(a, b) == lex_lt(a.skip(i), b.skip(i)),
    decreases i,
{
    if i > 0 {
        assert(a[0] == b[0]);
        assert(forall|j: int| 0 <= j < i - 1 ==> a.skip(1)[j] == b.skip(1)[j]);
        lemma_lex_lt_skip(a.skip(1), b.skip(1), i - 1);
        assert(a.skip(1).skip(i - 1) =~= a.skip(i));
        assert(b.skip(1).skip(i - 1) =~= b.skip(i));
    } else {
        assert(a.skip(0) =~= a);
        assert(b.skip(0) =~= b);
    }
}

/// Is `a` strictly before `b` in byte-lexicographic order?
#[verifier::loop_isolation(false)]
fn name_lt(a: &str, b: &str) -> (r: bool)
    ensures
        r == lex_lt(a.spec_bytes(), b.spec_bytes()),
{
    let ab = a.as_bytes();
    let bb = b.as_bytes();
    let na = ab.len();
    let nb = bb.len();
    let mut i: usize = 0;
    while i < na && i < nb
        invariant
            i <= na,
            i <= nb,
            forall|j: int| 0 <= j < i ==> ab@[j] == bb@[j],
        decreases na - i,
    {
        proof {
            lemma_lex_lt_skip(ab@, bb@, i as int);
        }
        if ab[i] < bb[i] {
            proof {
                assert(ab@.skip(i as int)[0] == ab@[i as int]);
                assert(bb@.skip(i as int)[0] == bb@[i as int]);
            }
            return true;
        }
        if ab[i] > bb[i] {
            proof {
                assert(ab@.skip(i as int)[0] == ab@[i as int]);
                assert(bb@.skip(i as int)[0] == bb@[i as int]);
            }
            return false;
        }
        i += 1;
    }
    proof {
        lemma_lex_lt_skip(ab@, bb@, i as int);
    }
    na < nb
}

/// Do `a` and `b` consist of exactly the same bytes?
#[verifier::loop_isolation(false)]
fn name_eq(a: &str, b: &str) -> (r: bool)
    ensures
        r == (a.spec_bytes() == b.spec_bytes()),
{
    let ab = a.as_bytes();
    let bb = b.as_bytes();
    let na = ab.len();
    if na != bb.len() {
        return false;
    }
    let mut i: usize = 0;
    while i < na
        invariant
            i <= na,
            forall|j: int| 0 <= j < i ==> ab@[j] == bb@[j],
        decreases na - i,
    {
        if ab[i] != bb[i] {
            return false;
        }
        i += 1;
    }
    proof {
        assert(ab@ =~= bb@);
    }
    true
}

/// Copy a list of display specifications.
#[verifier::loop_isolation(false)]
fn clone_specs(v: &Vec<DisplaySpec>) -> (r: Vec<DisplaySpec>)
    ensures
        r@ == v@,
{
    let mut r: Vec<DisplaySpec> = Vec::new();
    let n = v.len();
    let mut i: usize = 0;
    while i < n
        invariant
            i <= n,
            r@ == v@.take(i as int),
        decreases n - i,
    {
        r.push(v[i]);
        proof {
            assert(v@.take(i as int + 1) =~= v@.take(i as int).push(v@[i as int]));
        }
        i += 1;
    }
    proof {
        assert(v@.take(n as int) =~= v@);
    }
    r
}

/// An in-memory map from profile names to non-empty lists of display
/// specifications, stored sorted by name.
pub struct ProfileManager {
    entries: Vec<(String, Vec<DisplaySpec>)>,
}

impl ProfileManager {
    /// The stored profile names' keys, in storage order.
    pub closed spec fn names(self) -> Seq<Seq<u8>> {
        Seq::new(self.entries@.len(), |i: int| name_key(self.entries@[i].0@))
    }

    /// Names are held in strictly increasing byte-lexicographic order, which
    /// also makes them unique.
    pub closed spec fn wf(self) -> bool {
        forall|i: int, j: int|
            #![trigger self.names()[i], self.names()[j]]
            0 <= i < j < self.names().len() ==> lex_lt(self.names()[i], self.names()[j])
    }

    /// Is a profile of the given name (by key) stored?
    pub closed spec fn contains(self, k: Seq<u8>) -> bool {
        exists|i: int| 0 <= i < self.names().len() && self.names()[i] == k
    }

    /// The specifications stored under the given name.
    pub closed spec fn specs_of(self, k: Seq<u8>) -> Seq<DisplaySpec> {
        let i = choose|i: int| 0 <= i < self.names().len() && self.names()[i] == k;
        self.entries@[i].1@
    }

    proof fn lemma_distinct(self, i: int, j: int)
        requires
            self.wf(),
            0 <= i < self.names().len(),
            0 <= j < self.names().len(),
            i != j,
        ensures
            self.names()[i] != self.names()[j],
    {
        if self.names()[i] == self.names()[j] {
            if i < j {
                lemma_lex_lt_irrefl(self.names()[i]);
            } else {
                lemma_lex_lt_irrefl(self.names()[j]);
            }
        }
    }

    proof fn lemma_specs_at(self, i: int)
        requires
            self.wf(),
            0 <= i < self.names().len(),
        ensures
            self.contains(self.names()[i]),
            self.specs_of(self.names()[i]) == self.entries@[i].1@,
    {
        assert(self.contains(self.names()[i]));
        let j = choose|j: int|
            0 <= j < self.names().len() && self.names()[j] == self.names()[i];
        if j != i {
            self.lemma_distinct(i, j);
        }
    }

    /// An empty store.
    pub fn new() -> (r: ProfileManager)
        ensures
            r.wf(),
            r.names().len() == 0,
            forall|k: Seq<u8>| !r.contains(k),
    {
        ProfileManager { entries: Vec::new() }
    }

    /// Is a profile of this name stored?
    #[verifier::loop_isolation(false)]
    pub fn profile_exists(&self, name: &str) -> (r: bool)
        ensures
            r == self.contains(name_key(name@)),
    {
        let n = self.entries.len();
        let mut i: usize = 0;
        while i < n
            invariant
                i <= n,
                n == self.entries@.len(),
                forall|j: int| 0 <= j < i ==> self.names()[j] != name_key(name@),
            decreases n - i,
        {
            if name_eq(self.entries[i].0.as_str(), name) {
                proof {
                    assert(self.names()[i as int] == name_key(name@));
                }
                return true;
            }
            i += 1;
        }
        false
    }

    /// The specifications stored under this name, or `NotFound`.
    #[verifier::loop_isolation(false)]
    pub fn get_profile(&self, name: &str) -> (r: Result<Vec<DisplaySpec>, ProfileError>)
        requires
            self.wf(),
        ensures
            self.contains(name_key(name@)) ==> (r matches Ok(specs) && specs@ == self.specs_of(
                name_key(name@),
            )),
            !self.contains(name_key(name@)) ==> (r matches Err(e) && e == ProfileError::NotFound),
    {
        let n = self.entries.len();
        let mut i: usize = 0;
        while i < n
            invariant
                i <= n,
                n == self.entries@.len(),
                forall|j: int| 0 <= j < i ==> self.names()[j] != name_key(name@),
            decreases n - i,
        {
            if name_eq(self.entries[i].0.as_str(), name) {
                proof {
                    assert(self.names()[i as int] == name_key(name@));
                    self.lemma_specs_at(i as int);
                }
                return Ok(clone_specs(&self.entries[i].1));
            }
            i += 1;
        }
        Err(ProfileError::NotFound)
    }

    /// Store or replace the profile of this name: afterwards the name maps
    /// to exactly `specs`, and every other profile is untouched. A profile
    /// must have at least one specification.
    #[verifier::loop_isolation(false)]
    pub fn create_profile(&mut self, name: String, specs: Vec<DisplaySpec>) -> (r: Result<
        (),
        ProfileError,
    >)
        requires
            old(self).wf(),
        ensures
            final(self).wf(),
            specs@.len() == 0 ==> (r matches Err(e) && e == ProfileError::EmptyProfile
                && *final(self) == *old(self)),
            specs@.len() > 0 ==> r is Ok,
            specs@.len() > 0 ==> final(self).contains(name_key(name@)),
            specs@.len() > 0 ==> final(self).specs_of(name_key(name@)) == specs@,
            specs@.len() > 0 ==> (forall|k: Seq<u8>|
                #![auto]
                final(self).contains(k) <==> (old(self).contains(k) || k == name_key(name@))),
            specs@.len() > 0 ==> (forall|k: Seq<u8>|
                #![auto]
                old(self).contains(k) && k != name_key(name@) ==> final(self).specs_of(k)
                    == old(self).specs_of(k)),
    {
        if specs.len() == 0 {
            return Err(ProfileError::EmptyProfile);
        }
        let ghost pre = *self;
        let ghost key = name_key(name@);
        let n = self.entries.len();
        let mut i: usize = 0;
        while i < n && name_lt(self.entries[i].0.as_str(), name.as_str())
            invariant
                i <= n,
                forall|j: int| 0 <= j < i ==> lex_lt(pre.names()[j], key),
            decreases n - i,
        {
            i += 1;
        }
        if i < n && name_eq(self.entries[i].0.as_str(), name.as_str()) {
            // An existing profile of this name: replace its specifications
            proof {
                assert(pre.names()[i as int] == key);
            }
            self.entries.remove(i);
            self.entries.insert(i, (name, specs));
            proof {
                let post = *self;
                assert forall|j: int|
                    0 <= j < post.names().len() implies post.names()[j] == pre.names()[j] by {
                    if j != i {
                        assert(post.entries@[j] == pre.entries@[j]);
                    }
                }
                assert(post.names() =~= pre.names());
                assert forall|k: Seq<u8>|
                    #![auto]
                    post.contains(k) <==> (pre.contains(k) || k == key) by {
                    if post.contains(k) {
                        let j = choose|j: int|
                            0 <= j < post.names().len() && post.names()[j] == k;
                        assert(pre.names()[j] == k);
                    }
                    if pre.contains(k) {
                        let j = choose|j: int|
                            0 <= j < pre.names().len() && pre.names()[j] == k;
                        assert(post.names()[j] == k);
                    }
                    if k == key {
                        assert(post.names()[i as int] == k);
                    }
                }
                post.lemma_specs_at(i as int);
                assert(post.specs_of(key) == specs@);
                assert forall|k: Seq<u8>|
                    #![auto]
                    pre.contains(k) && k != key implies post.specs_of(k) == pre.specs_of(k) by {
                    let j = choose|j: int| 0 <= j < pre.names().len() && pre.names()[j] == k;
                    pre.lemma_specs_at(j);
                    assert(post.names()[j] == k);
                    post.lemma_specs_at(j);
                    assert(j != i);
                    assert(post.entries@[j] == pre.entries@[j]);
                }
            }
            return Ok(());
        }
        // No profile of this name yet: insert it, keeping the order
        proof {
            if i < n {
                assert(pre.names()[i as int] != key);
                lemma_lex_lt_total(pre.names()[i as int], key);
                assert(lex_lt(key, pre.names()[i as int]));
            }
        }
        self.entries.insert(i, (name, specs));
        proof {
            let post = *self;
            assert(post.entries@ == pre.entries@.insert(i as int, (name, specs)));
            assert(post.names().len() == pre.names().len() + 1);
            assert forall|j: int|
                0 <= j < post.names().len() implies post.names()[j] == (if j < i {
                pre.names()[j]
            } else if j == i {
                key
            } else {
                pre.names()[j - 1]
            }) by {
                if j < i {
                    assert(post.entries@[j] == pre.entries@[j]);
                } else if j > i {
                    assert(post.entries@[j] == pre.entries@[j - 1]);
                }
            }
            assert forall|p: int, q: int|
                0 <= p < q < post.names().len() implies lex_lt(
                post.names()[p],
                post.names()[q],
            ) by {
                if q < i {
                } else if p < i && q == i {
                    assert(lex_lt(pre.names()[p], key));
                } else if p < i && q > i {
                } else if p == i && q > i {
                    assert(lex_lt(key, pre.names()[i as int]));
                    if q - 1 > i {
                        lemma_lex_lt_trans(key, pre.names()[i as int], pre.names()[q - 1]);
                    }
                }
            }
            assert(post.wf());
            assert forall|k: Seq<u8>|
                #![auto]
                post.contains(k) <==> (pre.contains(k) || k == key) by {
                if post.contains(k) {
                    let j = choose|j: int| 0 <= j < post.names().len() && post.names()[j] == k;
                    if j < i {
                        assert(pre.names()[j] == k);
                    } else if j > i {
                        assert(pre.names()[j - 1] == k);
                    }
                }
                if pre.contains(k) {
                    let j = choose|j: int| 0 <= j < pre.names().len() && pre.names()[j] == k;
                    if j < i {
                        assert(post.names()[j] == k);
                    } else {
                        assert(post.names()[j + 1] == k);
                    }
                }
                if k == key {
                    assert(post.names()[i as int] == k);
                }
            }
            post.lemma_specs_at(i as int);
            assert(post.entries@[i as int].1@ == specs@);
            assert forall|k: Seq<u8>|
                #![auto]
                pre.contains(k) && k != key implies post.specs_of(k) == pre.specs_of(k) by {
                let j = choose|j: int| 0 <= j < pre.names().len() && pre.names()[j] == k;
                pre.lemma_specs_at(j);
                if j < i {
                    assert(post.names()[j] == k);
                    post.lemma_specs_at(j);
                    assert(post.entries@[j] == pre.entries@[j]);
                } else {
                    assert(post.names()[j + 1] == k);
                    post.lemma_specs_at(j + 1);
                    assert(post.entries@[j + 1] == pre.entries@[j]);
                }
            }
        }
        Ok(())
    }

    /// Remove the profile of this name: afterwards the name is absent and
    /// every other profile is untouched. `NotFound` if it was not stored.
    #[verifier::loop_isolation(false)]
    pub fn delete_profile(&mut self, name: &str) -> (r: Result<(), ProfileError>)
        requires
            old(self).wf(),
        ensures
            final(self).wf(),
            old(self).contains(name_key(name@)) ==> (r is Ok && (forall|k: Seq<u8>|
                #![auto]
                final(self).contains(k) <==> (old(self).contains(k) && k != name_key(name@)))
                && (forall|k: Seq<u8>|
                #![auto]
                final(self).contains(k) ==> final(self).specs_of(k) == old(self).specs_of(k))),
            !old(self).contains(name_key(name@)) ==> (r matches Err(e) && e
                == ProfileError::NotFound && *final(self) == *old(self)),
    {
        let ghost pre = *self;
        let ghost key = name_key(name@);
        let n = self.entries.len();
        let mut i: usize = 0;
        while i < n
            invariant
                i <= n,
                n == self.entries@.len(),
                *self == pre,
                forall|j: int| 0 <= j < i ==> pre.names()[j] != key,
            decreases n - i,
        {
            if name_eq(self.entries[i].0.as_str(), name) {
                proof {
                    assert(pre.names()[i as int] == key);
                }
                self.entries.remove(i);
                proof {
                    let post = *self;
                    assert(post.entries@ == pre.entries@.remove(i as int));
                    assert(post.names().len() == pre.names().len() - 1);
                    assert forall|j: int|
                        0 <= j < post.names().len() implies post.names()[j] == (if j < i {
                        pre.names()[j]
                    } else {
                        pre.names()[j + 1]
                    }) by {
                        if j < i {
                            assert(post.entries@[j] == pre.entries@[j]);
                        } else {
                            assert(post.entries@[j] == pre.entries@[j + 1]);
                        }
                    }
                    assert(post.wf());
                    assert forall|k: Seq<u8>|
                        #![auto]
                        post.contains(k) <==> (pre.contains(k) && k != key) by {
                        if post.contains(k) {
                            let j = choose|j: int|
                                0 <= j < post.names().len() && post.names()[j] == k;
                            if j < i {
                                assert(pre.names()[j] == k);
                                pre.lemma_distinct(j, i as int);
                            } else {
                                assert(pre.names()[j + 1] == k);
                                pre.lemma_distinct(j + 1, i as int);
                            }
                        }
                        if pre.contains(k) && k != key {
                            let j = choose|j: int|
                                0 <= j < pre.names().len() && pre.names()[j] == k;
                            assert(j != i);
                            if j < i {
                                assert(post.names()[j] == k);
                            } else {
                                assert(post.names()[j - 1] == k);
                            }
                        }
                    }
                    assert forall|k: Seq<u8>|
                        #![auto]
                        post.contains(k) implies post.specs_of(k) == pre.specs_of(k) by {
                        let j = choose|j: int|
                            0 <= j < post.names().len() && post.names()[j] == k;
                        post.lemma_specs_at(j);
                        if j < i {
                            pre.lemma_specs_at(j);
                            assert(post.entries@[j] == pre.entries@[j]);
                        } else {
                            pre.lemma_specs_at(j + 1);
                            assert(post.entries@[j] == pre.entries@[j + 1]);
                        }
                    }
                }
                return Ok(());
            }
            i += 1;
        }
        Err(ProfileError::NotFound)
    }

    /// All stored profiles as (name, specifications) pairs, sorted
    /// alphabetically (byte-lexicographically) by name.
    #[verifier::loop_isolation(false)]
    pub fn list_profiles(&self) -> (r: Vec<(String, Vec<DisplaySpec>)>)
        requires
            self.wf(),
        ensures
            r@.len() == self.names().len(),
            forall|i: int|
                0 <= i < r@.len() ==> name_key(#[trigger] r@[i].0@) == self.names()[i]
                    && r@[i].1@ == self.specs_of(self.names()[i]),
            forall|i: int, j: int|
                #![trigger r@[i], r@[j]]
                0 <= i < j < r@.len() ==> lex_lt(name_key(r@[i].0@), name_key(r@[j].0@)),
    {
        let n = self.entries.len();
        let mut out: Vec<(String, Vec<DisplaySpec>)> = Vec::new();
        let mut i: usize = 0;
        while i < n
            invariant
                i <= n,
                out@.len() == i,
                forall|j: int|
                    0 <= j < i ==> name_key(#[trigger] out@[j].0@) == self.names()[j]
                        && out@[j].1@ == self.entries@[j].1@,
            decreases n - i,
        {
            let name_copy = self.entries[i].0.clone();
            let specs_copy = clone_specs(&self.entries[i].1);
            out.push((name_copy, specs_copy));
            i += 1;
        }
        proof {
            assert forall|j: int|
                0 <= j < out@.len() implies out@[j].1@ == self.specs_of(self.names()[j]) by {
                assert(name_key(out@[j].0@) == self.names()[j]);
                assert(out@[j].1@ == self.entries@[j].1@);
                self.lemma_specs_at(j);
            }
        }
        out
    }
}

} // verus!
