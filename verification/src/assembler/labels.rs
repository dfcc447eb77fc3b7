//! The label table: a mapping from label names to 16-bit addresses that
//! rejects redefinition. It is built once during address assignment and
//! consulted read-only while references are resolved.

use vstd::prelude::*;
use crate::instruction::{Address, Data16};

verus! {

/// A label name: the contiguous run of source bytes that spelled it.
/// Two labels are the same label exactly when their byte runs are equal;
/// comparison is case-sensitive and byte-for-byte.
#[derive(Clone, Debug, PartialEq, Eq)]
pub struct Label {
    pub span: Vec<u8>,
}

impl View for Label {
    type V = Seq<u8>;

    open spec fn view(&self) -> Seq<u8> {
        self.span@
    }
}

impl Label {
    /// A copy of the label with the same byte run.
    pub fn clone_label(&self) -> (r: Label)
        ensures
            r@ == self@,
    {
        Label { span: vstd::slice::slice_to_vec(self.span.as_slice()) }
    }

    /// True of the byte runs the label grammar accepts: a letter, `@` or
    /// `?`, followed by letters and digits.
    pub open spec fn spec_valid(s: Seq<u8>) -> bool {
        &&& s.len() > 0
        &&& (s[0] == 64 || s[0] == 63 || (65 <= s[0] <= 90))
        &&& forall|i: int| 1 <= i < s.len() ==> (65 <= #[trigger] s[i] <= 90 || 48 <= s[i] <= 57)
    }
}

/// The map a sequence of table entries denotes, later entries taking
/// precedence (the table itself never holds two entries for one name).
pub open spec fn spec_entries_map(s: Seq<(Label, u16)>) -> Map<Seq<u8>, u16>
    decreases s.len(),
{
    if s.len() == 0 {
        Map::empty()
    } else {
        spec_entries_map(s.drop_last()).insert(s.last().0@, s.last().1)
    }
}

/// A name is in the map exactly when some entry carries it.
proof fn lemma_entries_map_contains(s: Seq<(Label, u16)>, k: Seq<u8>)
    ensures
        spec_entries_map(s).contains_key(k) <==> exists|i: int|
            0 <= i < s.len() && #[trigger] s[i].0@ == k,
    decreases s.len(),
{
    if s.len() > 0 {
        lemma_entries_map_contains(s.drop_last(), k);
        if s.last().0@ == k {
            assert(s[s.len() - 1].0@ == k);
        } else {
            if spec_entries_map(s).contains_key(k) {
                let i = choose|i: int| 0 <= i < s.drop_last().len() && #[trigger] s.drop_last()[i].0@
                    == k;
                assert(s[i].0@ == k);
            }
            if exists|i: int| 0 <= i < s.len() && #[trigger] s[i].0@ == k {
                let i = choose|i: int| 0 <= i < s.len() && #[trigger] s[i].0@ == k;
                assert(i < s.len() - 1);
                assert(s.drop_last()[i].0@ == k);
            }
        }
    }
}

/// With pairwise distinct names, each entry's address is what the map
/// records for its name.
proof fn lemma_entries_map_index(s: Seq<(Label, u16)>, i: int)
    requires
        forall|p: int, q: int|
            0 <= p < q < s.len() ==> #[trigger] s[p].0@ != #[trigger] s[q].0@,
        0 <= i < s.len(),
    ensures
        spec_entries_map(s).contains_key(s[i].0@),
        spec_entries_map(s)[s[i].0@] == s[i].1,
    decreases s.len(),
{
    if i == s.len() - 1 {
    } else {
        assert(forall|p: int, q: int|
            0 <= p < q < s.len() - 1 ==> #[trigger] s.drop_last()[p].0@ != #[trigger] s.drop_last()[q].0@);
        lemma_entries_map_index(s.drop_last(), i);
        assert(s.drop_last()[i] == s[i]);
        assert(s[i].0@ != s.last().0@);
    }
}

/// The label table. Inserting a name that is already present fails and
/// leaves the table unchanged; there is no shadowing.
pub struct LabelLookup {
    entries: Vec<(Label, u16)>,
}

impl View for LabelLookup {
    type V = Map<Seq<u8>, u16>;

    closed spec fn view(&self) -> Map<Seq<u8>, u16> {
        spec_entries_map(self.entries@)
    }
}

impl LabelLookup {
    #[verifier::type_invariant]
    spec fn wf(self) -> bool {
        forall|p: int, q: int|
            0 <= p < q < self.entries@.len() ==> #[trigger] self.entries@[p].0@
                != #[trigger] self.entries@[q].0@
    }

    pub fn new() -> (r: Self)
        ensures
            r@ == Map::<Seq<u8>, u16>::empty(),
    {
        LabelLookup { entries: Vec::new() }
    }

    /// Finds the entry whose name equals `label` byte-for-byte.
    fn find(&self, label: &Label) -> (r: Option<u16>)
        ensures
            match r {
                Some(a) => self@.contains_key(label@) && a == self@[label@],
                None => !self@.contains_key(label@),
            },
    {
        proof {
            use_type_invariant(self);
        }
        let n = self.entries.len();
        let mut i: usize = 0;
        while i < n
            invariant
                i <= n,
                n == self.entries@.len(),
                self.wf(),
                forall|j: int| 0 <= j < i ==> #[trigger] self.entries@[j].0@ != label@,
            decreases n - i,
        {
            if bytes_equal(&self.entries[i].0.span, &label.span) {
                let address = self.entries[i].1;
                proof {
                    lemma_entries_map_index(self.entries@, i as int);
                }
                return Some(address);
            }
            i = i + 1;
        }
        proof {
            lemma_entries_map_contains(self.entries@, label@);
        }
        None
    }

    /// Looks a name up in the completed table.
    pub fn lookup(&self, label: Label) -> (r: Option<Address>)
        ensures
            match r {
                Some(a) => self@.contains_key(label@) && a == Data16::spec_from_u16(
                    self@[label@],
                ),
                None => !self@.contains_key(label@),
            },
    {
        match self.find(&label) {
            Some(address) => Some(Address::from(address)),
            None => None,
        }
    }

    /// Records `label` at `address`. Fails, changing nothing, when the
    /// label already has an entry.
    pub fn insert(&mut self, label: Label, address: u16) -> (r: Result<(), ()>)
        ensures
            match r {
                Ok(_) => !old(self)@.contains_key(label@) && final(self)@ == old(self)@.insert(
                    label@,
                    address,
                ),
                Err(_) => old(self)@.contains_key(label@) && final(self)@ == old(self)@,
            },
    {
        proof {
            use_type_invariant(&*self);
        }
        if self.find(&label).is_some() {
            return Err(());
        }
        proof {
            lemma_entries_map_contains(self.entries@, label@);
        }
        let mut entries: Vec<(Label, u16)> = Vec::new();
        std::mem::swap(&mut entries, &mut self.entries);
        entries.push((label, address));
        self.entries = entries;
        proof {
            assert(self.entries@.drop_last() =~= old(self).entries@);
            assert(self.entries@.last().0@ == label@);
        }
        Ok(())
    }
}

/// Byte-for-byte equality of two byte runs.
pub fn bytes_equal(a: &Vec<u8>, b: &Vec<u8>) -> (r: bool)
    ensures
        r == (a@ == b@),
{
    let n = a.len();
    if n != b.len() {
        return false;
    }
    let mut i: usize = 0;
    while i < n
        invariant
            i <= n,
            n == a@.len(),
            n == b@.len(),
            forall|j: int| 0 <= j < i ==> a@[j] == b@[j],
        decreases n - i,
    {
        if a[i] != b[i] {
            return false;
        }
        i = i + 1;
    }
    proof {
        assert(a@ =~= b@);
    }
    true
}

} // verus!
