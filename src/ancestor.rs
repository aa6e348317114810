use vstd::prelude::*;

verus! {

broadcast use vstd::seq_lib::group_seq_properties;

pub uninterp spec fn parent_of(path: Seq<char>) -> Option<Seq<char>>;

/// Relies on std::path::Path::parent: the path without its final component,
/// or nothing where the path has no parent (it is a root or empty).
#[verifier::external_body]
fn path_parent(path: &str) -> (r: Option<String>)
    ensures
        match r {
            Some(p) => parent_of(path@) == Some(p@),
            None => parent_of(path@) is None,
        },
{
    match std::path::Path::new(path).parent() {
        Some(p) => Some(p.to_string_lossy().into_owned()),
        None => None,
    }
}

/// The path followed by its successive parents, at most `depth` of them in all.
pub open spec fn ancestry(path: Seq<char>, depth: nat) -> Seq<Seq<char>>
    decreases depth,
{
    if depth == 0 {
        Seq::empty()
    } else {
        seq![path] + match parent_of(path) {
            Some(p) => ancestry(p, (depth - 1) as nat),
            None => Seq::empty(),
        }
    }
}

/// The first path of the chain that is flagged as an existing directory.
pub open spec fn closest_dir(chain: Seq<Seq<char>>, is_dir: Seq<bool>) -> Option<Seq<char>>
    decreases chain.len(),
{
    if chain.len() == 0 || is_dir.len() == 0 {
        None
    } else if is_dir[0] {
        Some(chain[0])
    } else {
        closest_dir(chain.drop_first(), is_dir.drop_first())
    }
}

/// The path itself and each of its ancestors, nearest first. Every step
/// strips at least one character, so a walk of one more step than the path
/// has characters reaches the root.
pub fn ancestor_chain(path: &str) -> (r: Vec<String>)
    requires
        path@.len() < usize::MAX,
    ensures
        r@.map_values(|s: String| s@) == ancestry(path@, (path@.len() + 1) as nat),
{
    let depth: usize = path.unicode_len() + 1;
    let mut chain: Vec<String> = Vec::new();
    let mut current: Option<String> = Some(String::from_str(path));
    let mut left: usize = depth;
    while left > 0
        invariant
            left <= depth,
            depth == path@.len() + 1,
            match current {
                Some(c) => chain@.map_values(|s: String| s@) + ancestry(c@, left as nat)
                    == ancestry(path@, depth as nat),
                None => chain@.map_values(|s: String| s@) == ancestry(path@, depth as nat),
            },
        decreases left,
    {
        match current {
            Some(c) => {
                let next = path_parent(c.as_str());
                proof {
                    let before = chain@.map_values(|s: String| s@);
                    assert(chain@.push(c).map_values(|s: String| s@) =~= before.push(c@));
                    match &next {
                        Some(p) => {
                            assert(before.push(c@) + ancestry(p@, (left - 1) as nat)
                                =~= before + ancestry(c@, left as nat));
                        },
                        None => {
                            assert(before.push(c@) =~= before + ancestry(c@, left as nat));
                        },
                    }
                }
                chain.push(c);
                current = next;
                left = left - 1;
            },
            None => {
                left = 0;
            },
        }
    }
    proof {
        if let Some(c) = &current {
            assert(ancestry(c@, 0) =~= Seq::<Seq<char>>::empty());
            assert(chain@.map_values(|s: String| s@) + Seq::<Seq<char>>::empty()
                =~= chain@.map_values(|s: String| s@));
        }
    }
    chain
}

/// The working directory for a job: the first entry of an ancestor chain
/// that exists as a directory, or nothing where none does.
pub fn closest_ancestor_dir(chain: &Vec<String>, is_dir: &Vec<bool>) -> (r: Option<String>)
    requires
        chain.len() == is_dir.len(),
    ensures
        match r {
            Some(d) => closest_dir(chain@.map_values(|s: String| s@), is_dir@) == Some(d@),
            None => closest_dir(chain@.map_values(|s: String| s@), is_dir@) is None,
        },
{
    let ghost views = chain@.map_values(|s: String| s@);
    let mut i: usize = 0;
    while i < chain.len()
        invariant
            i <= chain.len(),
            chain.len() == is_dir.len(),
            views == chain@.map_values(|s: String| s@),
            closest_dir(views, is_dir@) == closest_dir(views.skip(i as int), is_dir@.skip(i as int)),
        decreases chain.len() - i,
    {
        if is_dir[i] {
            return Some(chain[i].clone());
        }
        proof {
            assert(views.skip(i as int).drop_first() =~= views.skip(i as int + 1));
            assert(is_dir@.skip(i as int).drop_first() =~= is_dir@.skip(i as int + 1));
        }
        i = i + 1;
    }
    None
}

/// The walk stops at the nearest directory: where the first `k` entries of
/// the chain are not directories and the entry at `k` is one, that entry is
/// the result. With `k == 1` this is a path whose immediate parent exists.
pub proof fn lemma_nearest_directory_wins(chain: Seq<Seq<char>>, is_dir: Seq<bool>, k: int)
    requires
        chain.len() == is_dir.len(),
        0 <= k < chain.len(),
        forall|j: int| 0 <= j < k ==> !is_dir[j],
        is_dir[k],
    ensures
        closest_dir(chain, is_dir) == Some(chain[k]),
    decreases k,
{
    if k > 0 {
        lemma_nearest_directory_wins(chain.drop_first(), is_dir.drop_first(), k - 1);
    }
}

} // verus!
