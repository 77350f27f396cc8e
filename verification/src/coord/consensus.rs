//! The coordinator's check that every node runs the same code: all commits
//! that nodes report must be one and the same, and the reasons given to nodes
//! when training is called off.
use vstd::prelude::*;
use crate::text::{decimal_chars, push_decimal, string_views, find_string};

verus! {

/// The commits reported, each once, in the order first reported.
pub fn distinct_commits(commits: &Vec<String>) -> (r: Vec<String>)
    ensures
        string_views(r@).no_duplicates(),
        string_views(r@).to_set() == string_views(commits@).to_set(),
{
    let mut out: Vec<String> = Vec::new();
    let mut i: usize = 0;
    while i < commits.len()
        invariant
            i <= commits@.len(),
            string_views(out@).no_duplicates(),
            string_views(out@).to_set() == string_views(commits@).take(i as int).to_set(),
        decreases commits@.len() - i,
    {
        let ghost before = string_views(out@);
        proof {
            assert(string_views(commits@).take(i + 1) =~= string_views(commits@).take(i as int).push(
                commits@[i as int]@,
            ));
            string_views(commits@).take(i as int).lemma_push_to_set_commute(commits@[i as int]@);
        }
        if find_string(&out, &commits[i]).is_none() {
            out.push(commits[i].clone());
            proof {
                assert(string_views(out@) =~= before.push(commits@[i as int]@));
                before.lemma_push_to_set_commute(commits@[i as int]@);
                assert(string_views(out@).no_duplicates()) by {
                    assert forall|a: int, b: int| 0 <= a < b < string_views(out@).len() implies
                        string_views(out@)[a] != string_views(out@)[b] by {
                        if b == before.len() {
                            assert(string_views(out@)[a] == before[a]);
                        } else {
                            assert(before[a] != before[b]);
                        }
                    }
                }
            }
        } else {
            proof {
                assert(before.contains(commits@[i as int]@));
                assert(before.to_set().insert(commits@[i as int]@) =~= before.to_set());
            }
        }
        i = i + 1;
    }
    proof {
        assert(string_views(commits@).take(i as int) =~= string_views(commits@));
    }
    out
}

/// What the coordinator concludes from the commits the nodes reported.
#[derive(Debug, Clone, PartialEq, Eq)]
pub enum CommitVerdict {
    /// No node reported a commit.
    NoCommits,
    /// All nodes reported this commit.
    Agree(String),
    /// The nodes reported this many different commits.
    Mismatch(usize),
}

/// Whether all reported commits are the same one.
pub fn commit_verdict(commits: &Vec<String>) -> (r: CommitVerdict)
    ensures
        commits@.len() == 0 <==> r is NoCommits,
        r matches CommitVerdict::Agree(c) ==> forall|i: int| 0 <= i < commits@.len() ==> (#[trigger] commits@[i])@ == c@,
        r matches CommitVerdict::Mismatch(n) ==> n >= 2 && n == string_views(commits@).to_set().len(),
        commits@.len() > 0 && (forall|i: int| 0 <= i < commits@.len() ==> (#[trigger] commits@[i])@ == commits@[0]@)
            ==> r is Agree,
{
    if commits.len() == 0 {
        return CommitVerdict::NoCommits;
    }
    let d = distinct_commits(commits);
    proof {
        string_views(d@).unique_seq_to_set();
        assert(string_views(commits@).to_set().contains(commits@[0]@)) by {
            assert(string_views(commits@)[0] == commits@[0]@);
        }
    }
    if d.len() == 1 {
        proof {
            assert forall|i: int| 0 <= i < commits@.len() implies (#[trigger] commits@[i])@ == d@[0]@ by {
                assert(string_views(commits@)[i] == commits@[i]@);
                assert(string_views(commits@).to_set().contains(commits@[i]@));
                assert(string_views(d@).contains(commits@[i]@));
                let k = choose|k: int| 0 <= k < string_views(d@).len() && string_views(d@)[k] == commits@[i]@;
                assert(k == 0);
            }
        }
        CommitVerdict::Agree(d[0].clone())
    } else {
        proof {
            if forall|i: int| 0 <= i < commits@.len() ==> (#[trigger] commits@[i])@ == commits@[0]@ {
                assert(string_views(commits@).to_set() =~= set![commits@[0]@]) by {
                    assert forall|x: Seq<char>| string_views(commits@).to_set().contains(x) implies x == commits@[0]@ by {
                        let k = choose|k: int| 0 <= k < string_views(commits@).len() && string_views(commits@)[k] == x;
                        assert(commits@[k]@ == commits@[0]@);
                    }
                }
                assert(set![commits@[0]@].len() == 1);
            }
            assert(string_views(d@).len() != 0) by {
                if string_views(d@).len() == 0 {
                    assert(string_views(d@).to_set().len() == 0);
                }
            }
        }
        CommitVerdict::Mismatch(d.len())
    }
}

/// Why training is called off when the nodes disagree on the commit.
pub open spec fn commit_mismatch_text(distinct: nat) -> Seq<char> {
    "Commit hash mismatch detected: "@ + decimal_chars(distinct) + " different commits"@
}

/// Builds the reason for calling training off over `distinct` commits.
pub fn commit_mismatch_reason(distinct: usize) -> (r: String)
    ensures
        r@ == commit_mismatch_text(distinct as nat),
{
    let mut s = String::from_str("Commit hash mismatch detected: ");
    push_decimal(&mut s, distinct as u64);
    s.append(" different commits");
    proof {
        assert(s@ =~= commit_mismatch_text(distinct as nat));
    }
    s
}

/// Why training is called off when a node never reported its commit.
pub open spec fn missing_commit_text(node_id: Seq<char>) -> Seq<char> {
    "Node "@ + node_id + " did not send RepoCommit after 30s"@
}

/// Builds the reason for calling training off over node `node_id`'s silence.
pub fn missing_commit_reason(node_id: &str) -> (r: String)
    ensures
        r@ == missing_commit_text(node_id@),
{
    let mut s = String::from_str("Node ");
    s.append(node_id);
    s.append(" did not send RepoCommit after 30s");
    proof {
        assert(s@ =~= missing_commit_text(node_id@));
    }
    s
}

} // verus!
