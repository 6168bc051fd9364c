//! Node selection: protocol version compatibility, and the candidate
//! order for connection attempts — the previously used node is removed,
//! the rest is shuffled, and the previously used node is appended again
//! so that it is tried last, as the fallback.

use vstd::prelude::*;

verus! {

/// `a` is an initial segment of `b`.
pub open spec fn seq_is_prefix_of(a: Seq<char>, b: Seq<char>) -> bool {
    a.len() <= b.len() && a == b.subrange(0, a.len() as int)
}

/// Software and runtime identity reported by a node.
pub struct Version {
    pub version: String,
    pub spec_version: u32,
    pub spec_name: String,
}

impl Version {
    /// Two versions are compatible when spec name and spec version agree
    /// and one software version string is a prefix of the other, which
    /// tolerates patch-level differences.
    pub open spec fn spec_matches(self, other: Version) -> bool {
        &&& (seq_is_prefix_of(self.version@, other.version@) || seq_is_prefix_of(
            other.version@,
            self.version@,
        ))
        &&& self.spec_name@ == other.spec_name@
        &&& self.spec_version == other.spec_version
    }

    pub fn matches(&self, other: &Version) -> (r: bool)
        ensures
            r == self.spec_matches(*other),
    {
        (str_is_prefix(self.version.as_str(), other.version.as_str()) || str_is_prefix(
            other.version.as_str(),
            self.version.as_str(),
        )) && self.spec_name == other.spec_name && self.spec_version == other.spec_version
    }
}

/// Whether `a` is an initial segment of `b`, character by character.
fn str_is_prefix(a: &str, b: &str) -> (r: bool)
    ensures
        r == seq_is_prefix_of(a@, b@),
{
    let n = a.unicode_len();
    let m = b.unicode_len();
    if n > m {
        return false;
    }
    let mut i: usize = 0;
    while i < n
        invariant
            i <= n,
            n == a@.len(),
            m == b@.len(),
            n <= m,
            forall|k: int| 0 <= k < i ==> a@[k] == b@[k],
        decreases n - i,
    {
        if a.get_char(i) != b.get_char(i) {
            proof {
                assert(b@.subrange(0, a@.len() as int)[i as int] == b@[i as int]);
            }
            return false;
        }
        i = i + 1;
    }
    proof {
        assert(a@ =~= b@.subrange(0, a@.len() as int));
    }
    true
}

/// How many entries of the sequence read as the string `x`.
pub open spec fn count_matching(s: Seq<String>, x: Seq<char>) -> nat
    decreases s.len(),
{
    if s.len() == 0 {
        0
    } else {
        count_matching(s.drop_last(), x) + if s.last()@ == x {
            1nat
        } else {
            0nat
        }
    }
}

/// Some entry of the sequence reads as the string `x`.
pub open spec fn contains_matching(s: Seq<String>, x: Seq<char>) -> bool {
    exists|i: int| 0 <= i < s.len() && s[i]@ == x
}

/// The entry count of a string is positive exactly when some entry
/// reads as it.
pub proof fn lemma_count_matching_positive(s: Seq<String>, x: Seq<char>)
    ensures
        count_matching(s, x) > 0 <==> contains_matching(s, x),
    decreases s.len(),
{
    if s.len() > 0 {
        lemma_count_matching_positive(s.drop_last(), x);
        if s.last()@ == x {
            assert(s[s.len() - 1]@ == x);
        } else {
            if contains_matching(s.drop_last(), x) {
                let i = choose|i: int| 0 <= i < s.drop_last().len() && s.drop_last()[i]@ == x;
                assert(s[i]@ == x);
            }
            if contains_matching(s, x) {
                let i = choose|i: int| 0 <= i < s.len() && s[i]@ == x;
                assert(s.drop_last()[i]@ == x);
            }
        }
    }
}

proof fn lemma_count_matching_push(s: Seq<String>, v: String, x: Seq<char>)
    ensures
        count_matching(s.push(v), x) == count_matching(s, x) + if v@ == x {
            1nat
        } else {
            0nat
        },
{
    assert(s.push(v).drop_last() =~= s);
    assert(s.push(v).last() == v);
}

/// A permutation of the same input: every string occurs in the output as
/// often as in the input.
pub open spec fn same_entries(a: Seq<String>, b: Seq<String>) -> bool {
    a.len() == b.len() && forall|x: Seq<char>| count_matching(a, x) == count_matching(b, x)
}

/// Relies on `rand::seq::SliceRandom::shuffle` (with the thread-local
/// generator of `rand::thread_rng`): a Fisher–Yates shuffle only swaps
/// entries in place, so the result is a permutation of the input. Which
/// permutation comes back is not assumed.
#[verifier::external_body]
fn shuffle_strings(v: &mut Vec<String>)
    ensures
        same_entries(final(v)@, old(v)@),
{
    rand::seq::SliceRandom::shuffle(v.as_mut_slice(), &mut rand::thread_rng());
}

/// What `shuffle_full_nodes` promises of its result: with no previous
/// node, or one that is not in the list, a permutation of the whole
/// list; otherwise every copy of the previous node is taken out, the
/// rest is permuted, and one copy of the previous node stands last.
pub open spec fn spec_shuffled_nodes(
    full_nodes: Seq<String>,
    last_full_node: Option<String>,
    result: Seq<String>,
) -> bool {
    match last_full_node {
        None => same_entries(result, full_nodes),
        Some(last) => {
            if contains_matching(full_nodes, last@) {
                &&& result.len() == full_nodes.len() - count_matching(full_nodes, last@) + 1
                &&& result.last()@ == last@
                &&& count_matching(result, last@) == 1
                &&& forall|x: Seq<char>|
                    x != last@ ==> count_matching(result, x) == count_matching(full_nodes, x)
            } else {
                same_entries(result, full_nodes)
            }
        },
    }
}

/// Among entries with pairwise different strings no string occurs twice.
pub proof fn lemma_count_matching_distinct(s: Seq<String>, x: Seq<char>)
    requires
        forall|i: int, j: int| 0 <= i < j < s.len() ==> s[i]@ != s[j]@,
    ensures
        count_matching(s, x) <= 1,
    decreases s.len(),
{
    if s.len() > 0 {
        lemma_count_matching_distinct(s.drop_last(), x);
        if s.last()@ == x {
            lemma_count_matching_positive(s.drop_last(), x);
            if contains_matching(s.drop_last(), x) {
                let i = choose|i: int| 0 <= i < s.len() - 1 && s.drop_last()[i]@ == x;
                assert(s[i]@ == s[s.len() - 1]@);
            }
        }
    }
}

/// Failover order: with pairwise different endpoints of which the
/// previously used one is a member, the candidate list has the same
/// length, holds exactly the same endpoints, and ends on the previously
/// used one.
pub proof fn lemma_failover_candidates(full_nodes: Seq<String>, last: String, result: Seq<String>)
    requires
        forall|i: int, j: int| 0 <= i < j < full_nodes.len() ==> full_nodes[i]@ != full_nodes[j]@,
        contains_matching(full_nodes, last@),
        spec_shuffled_nodes(full_nodes, Some(last), result),
    ensures
        result.len() == full_nodes.len(),
        result.last()@ == last@,
        forall|x: Seq<char>| contains_matching(result, x) <==> contains_matching(full_nodes, x),
{
    lemma_count_matching_distinct(full_nodes, last@);
    lemma_count_matching_positive(full_nodes, last@);
    assert forall|x: Seq<char>| contains_matching(result, x) <==> contains_matching(
        full_nodes,
        x,
    ) by {
        lemma_count_matching_positive(result, x);
        lemma_count_matching_positive(full_nodes, x);
    }
}

/// Candidate order for connection attempts: the previously used node is
/// removed from the list, the remainder is shuffled, and the previously
/// used node is appended at the end, to be tried only when every other
/// candidate failed. With no previous node the whole list is shuffled.
pub fn shuffle_full_nodes(full_nodes: &Vec<String>, last_full_node: Option<String>) -> (candidates:
    Vec<String>)
    ensures
        spec_shuffled_nodes(full_nodes@, last_full_node, candidates@),
{
    let mut candidates: Vec<String> = Vec::new();
    match last_full_node {
        None => {
            let mut i: usize = 0;
            while i < full_nodes.len()
                invariant
                    i <= full_nodes@.len(),
                    candidates@ =~= full_nodes@.take(i as int),
                decreases full_nodes@.len() - i,
            {
                candidates.push(full_nodes[i].clone());
                proof {
                    assert(candidates@ =~= full_nodes@.take(i + 1));
                }
                i = i + 1;
            }
            proof {
                assert(full_nodes@.take(full_nodes@.len() as int) =~= full_nodes@);
            }
            shuffle_strings(&mut candidates);
            candidates
        },
        Some(last) => {
            let mut i: usize = 0;
            while i < full_nodes.len()
                invariant
                    i <= full_nodes@.len(),
                    count_matching(candidates@, last@) == 0,
                    candidates@.len() == i - count_matching(full_nodes@.take(i as int), last@),
                    forall|x: Seq<char>|
                        x != last@ ==> count_matching(candidates@, x) == count_matching(
                            full_nodes@.take(i as int),
                            x,
                        ),
                decreases full_nodes@.len() - i,
            {
                let node = &full_nodes[i];
                let ghost old_candidates = candidates@;
                if !(*node == last) {
                    candidates.push(node.clone());
                }
                proof {
                    assert(full_nodes@.take(i + 1).drop_last() =~= full_nodes@.take(i as int));
                    assert(full_nodes@.take(i + 1).last() == full_nodes@[i as int]);
                    if node@ != last@ {
                        lemma_count_matching_push(old_candidates, *node, last@);
                        assert forall|x: Seq<char>| x != last@ implies count_matching(
                            candidates@,
                            x,
                        ) == count_matching(full_nodes@.take(i + 1), x) by {
                            lemma_count_matching_push(old_candidates, *node, x);
                        }
                    }
                }
                i = i + 1;
            }
            proof {
                assert(full_nodes@.take(full_nodes@.len() as int) =~= full_nodes@);
                lemma_count_matching_positive(full_nodes@, last@);
            }
            let removed_any = candidates.len() != full_nodes.len();
            shuffle_strings(&mut candidates);
            if removed_any {
                let ghost before_push = candidates@;
                candidates.push(last);
                proof {
                    lemma_count_matching_push(before_push, last, last@);
                    assert forall|x: Seq<char>| x != last@ implies count_matching(candidates@, x)
                        == count_matching(full_nodes@, x) by {
                        lemma_count_matching_push(before_push, last, x);
                    }
                }
            }
            candidates
        },
    }
}

} // verus!
