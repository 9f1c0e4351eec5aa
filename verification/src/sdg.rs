//! Truthy values of special data: which texts of a special datum count as true.
use vstd::prelude::*;
use crate::text::{ascii_lowercase, lemma_ascii_lowercase_idempotent, str_eq, to_ascii_lowercase};

verus! {

/// The texts that count as true for a special datum; with `ignore_case` they are held in
/// ASCII lowercase and compared with the ASCII lowercase of the datum.
#[derive(Clone, Debug)]
pub struct SdMappingsTruthyValue {
    values: Vec<String>,
    ignore_case: bool,
}

/// The texts of `v`.
pub open spec fn string_texts(v: Seq<String>) -> Seq<Seq<char>> {
    Seq::new(v.len(), |i: int| v[i]@)
}

/// The ASCII lowercase of each text of `v`.
pub open spec fn lowered_texts(v: Seq<String>) -> Seq<Seq<char>> {
    Seq::new(v.len(), |i: int| ascii_lowercase(v[i]@))
}

impl SdMappingsTruthyValue {
    /// The texts held.
    pub closed spec fn held(self) -> Seq<Seq<char>> {
        string_texts(self.values@)
    }

    /// Whether texts are compared ignoring ASCII case.
    pub closed spec fn ignores_case(self) -> bool {
        self.ignore_case
    }

    /// Whether `other` counts as true: it, or with `ignore_case` its ASCII lowercase, is one
    /// of the held texts.
    pub open spec fn counts_as_true(self, other: Seq<char>) -> bool {
        self.held().contains(
            if self.ignores_case() {
                ascii_lowercase(other)
            } else {
                other
            },
        )
    }

    /// The mapping of `values`, held in ASCII lowercase when `ignore_case` is set.
    pub fn new(values: Vec<String>, ignore_case: bool) -> (r: Self)
        ensures
            r.ignores_case() == ignore_case,
            r.held() == (if ignore_case {
                lowered_texts(values@)
            } else {
                string_texts(values@)
            }),
    {
        if !ignore_case {
            return SdMappingsTruthyValue { values, ignore_case };
        }
        let mut lowered: Vec<String> = Vec::new();
        let mut i: usize = 0;
        while i < values.len()
            invariant
                i <= values@.len(),
                lowered@.len() == i,
                forall|j: int| 0 <= j < i ==> #[trigger] lowered@[j]@ == ascii_lowercase(values@[j]@),
            decreases values@.len() - i,
        {
            lowered.push(to_ascii_lowercase(values[i].as_str()));
            i = i + 1;
        }
        let r = SdMappingsTruthyValue { values: lowered, ignore_case };
        assert(r.held() =~= lowered_texts(values@));
        r
    }

    /// Whether `other` counts as true.
    pub fn contains(&self, other: &str) -> (r: bool)
        ensures
            r == self.counts_as_true(other@),
    {
        let key = if self.ignore_case {
            to_ascii_lowercase(other)
        } else {
            crate::error::text(other)
        };
        let mut i: usize = 0;
        while i < self.values.len()
            invariant
                i <= self.values@.len(),
                key@ == (if self.ignores_case() {
                    ascii_lowercase(other@)
                } else {
                    other@
                }),
                forall|j: int| 0 <= j < i ==> self.values@[j]@ != key@,
            decreases self.values@.len() - i,
        {
            if str_eq(self.values[i].as_str(), key.as_str()) {
                assert(self.held()[i as int] == key@);
                return true;
            }
            i = i + 1;
        }
        proof {
            if self.held().contains(key@) {
                let k = choose|k: int| 0 <= k < self.held().len() && self.held()[k] == key@;
                assert(self.values@[k]@ == key@);
            }
        }
        false
    }

    /// The texts held, in the order given.
    pub fn values(&self) -> (r: &Vec<String>)
        ensures
            string_texts(r@) == self.held(),
    {
        &self.values
    }

    /// Whether texts are compared ignoring ASCII case.
    pub fn ignore_case(&self) -> (r: bool)
        ensures
            r == self.ignores_case(),
    {
        self.ignore_case
    }
}

/// A mapping that ignores case counts a text as true exactly when it counts the text's ASCII
/// lowercase as true: the letter case of a datum does not matter.
pub proof fn law_truthy_ignores_letter_case(m: SdMappingsTruthyValue, other: Seq<char>)
    requires
        m.ignores_case(),
    ensures
        m.counts_as_true(other) == m.counts_as_true(ascii_lowercase(other)),
{
    lemma_ascii_lowercase_idempotent(other);
}

/// A text counts as true for a mapping made with `ignore_case` exactly when its ASCII
/// lowercase equals the ASCII lowercase of one of the given values.
pub proof fn law_truthy_new_ignoring_case(
    values: Seq<String>,
    m: SdMappingsTruthyValue,
    other: Seq<char>,
)
    requires
        m.ignores_case(),
        m.held() == lowered_texts(values),
    ensures
        m.counts_as_true(other) <==> exists|i: int|
            0 <= i < values.len() && #[trigger] ascii_lowercase(values[i]@) == ascii_lowercase(
                other,
            ),
{
    if m.counts_as_true(other) {
        let k = choose|k: int| 0 <= k < m.held().len() && m.held()[k] == ascii_lowercase(other);
        assert(ascii_lowercase(values[k]@) == ascii_lowercase(other));
    }
    if exists|i: int|
        0 <= i < values.len() && #[trigger] ascii_lowercase(values[i]@) == ascii_lowercase(other) {
        let k = choose|i: int|
            0 <= i < values.len() && #[trigger] ascii_lowercase(values[i]@) == ascii_lowercase(
                other,
            );
        assert(m.held()[k] == ascii_lowercase(other));
    }
}

} // verus!
