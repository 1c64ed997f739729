//! What comes before a resolution: the answer at the prompt, and the
//! requested identifiers, looked up by slug in the local index of mods.

use vstd::prelude::*;

verus! {

/// Whether the byte typed at the prompt confirms the installation: `Y`, `y`
/// or a line feed. Everything else aborts.
pub fn is_confirmation(input: u8) -> (b: bool)
    ensures
        b == (input == 10 || input == 121 || input == 89),
{
    input == 10 || input == 121 || input == 89
}

/// One mod of the local index.
#[derive(Debug)]
pub struct LocalMod {
    pub slug: String,
    pub mod_id: String,
    pub name: String,
}

/// A slug that the local index has no mod of.
#[derive(Debug)]
pub struct NotInLocalIndex {
    pub slug: String,
}

/// `i` is the place of the first mod of the index with this slug.
pub open spec fn is_first_of_slug(index: Seq<LocalMod>, slug: Seq<char>, i: int) -> bool {
    &&& 0 <= i < index.len()
    &&& index[i].slug@ == slug
    &&& forall|j: int| 0 <= j < i ==> (#[trigger] index[j]).slug@ != slug
}

/// The index has a mod with this slug.
pub open spec fn has_slug(index: Seq<LocalMod>, slug: Seq<char>) -> bool {
    exists|i: int| is_first_of_slug(index, slug, i)
}

/// The identifier of the first mod of the index with this slug, where there
/// is one.
pub open spec fn id_of_slug(index: Seq<LocalMod>, slug: Seq<char>) -> Seq<char> {
    index[choose|i: int| is_first_of_slug(index, slug, i)].mod_id@
}

/// There is one first mod of a slug at most.
pub proof fn lemma_first_of_slug_is(index: Seq<LocalMod>, slug: Seq<char>, i: int)
    requires
        is_first_of_slug(index, slug, i),
    ensures
        has_slug(index, slug),
        id_of_slug(index, slug) == index[i].mod_id@,
{
    let c = choose|c: int| is_first_of_slug(index, slug, c);
    assert(is_first_of_slug(index, slug, c));
    if c < i {
        assert(index[c].slug@ != slug);
    }
    if i < c {
        assert(index[i].slug@ != slug);
    }
}

/// The place of the first mod of the index with this slug.
pub fn find_by_slug(index: &Vec<LocalMod>, slug: &String) -> (r: Option<usize>)
    ensures
        match r {
            Some(i) => is_first_of_slug(index@, slug@, i as int),
            None => !has_slug(index@, slug@),
        },
{
    let mut i: usize = 0;
    while i < index.len()
        invariant
            i <= index.len(),
            forall|j: int| 0 <= j < i ==> (#[trigger] index@[j]).slug@ != slug@,
        decreases index.len() - i,
    {
        if index[i].slug == *slug {
            return Some(i);
        }
        i += 1;
    }
    None
}

/// The identifiers to request for the slugs that a modpack depends on, in
/// the order of the slugs; or the first slug that the index has no mod of.
pub fn requested_ids(index: &Vec<LocalMod>, slugs: &Vec<String>) -> (r: Result<
    Vec<String>,
    NotInLocalIndex,
>)
    ensures
        match r {
            Ok(ids) => ids@.len() == slugs@.len() && forall|k: int|
                0 <= k < slugs@.len() ==> has_slug(index@, (#[trigger] slugs@[k])@) && ids@[k]@
                    == id_of_slug(index@, slugs@[k]@),
            Err(e) => exists|k: int|
                0 <= k < slugs@.len() && e.slug@ == (#[trigger] slugs@[k])@ && !has_slug(
                    index@,
                    slugs@[k]@,
                ) && forall|j: int| 0 <= j < k ==> has_slug(index@, (#[trigger] slugs@[j])@),
        },
{
    let mut ids: Vec<String> = Vec::new();
    let mut k: usize = 0;
    while k < slugs.len()
        invariant
            k <= slugs.len(),
            ids@.len() == k,
            forall|j: int|
                0 <= j < k ==> has_slug(index@, (#[trigger] slugs@[j])@) && ids@[j]@ == id_of_slug(
                    index@,
                    slugs@[j]@,
                ),
        decreases slugs.len() - k,
    {
        match find_by_slug(index, &slugs[k]) {
            Some(i) => {
                proof {
                    lemma_first_of_slug_is(index@, slugs@[k as int]@, i as int);
                }
                ids.push(index[i].mod_id.clone());
            },
            None => {
                return Err(NotInLocalIndex { slug: slugs[k].clone() });
            },
        }
        k += 1;
    }
    Ok(ids)
}

} // verus!
