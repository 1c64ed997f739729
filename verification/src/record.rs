//! The description of one fetchable artifact.

use vstd::prelude::*;

verus! {

/// An immutable description of a fetchable artifact, as the metadata source
/// hands it out for one platform version.
#[derive(Debug)]
pub struct ModRecord {
    pub mod_id: String,
    pub display_name: String,
    pub file_name: String,
    pub download_url: String,
    pub declared_dependency_ids: Vec<String>,
}

/// The mathematical value of a [`ModRecord`].
pub ghost struct ModRecordView {
    pub mod_id: Seq<char>,
    pub display_name: Seq<char>,
    pub file_name: Seq<char>,
    pub download_url: Seq<char>,
    pub declared_dependency_ids: Seq<Seq<char>>,
}

/// The views of a sequence of strings.
pub open spec fn string_views(v: Seq<String>) -> Seq<Seq<char>> {
    Seq::new(v.len(), |i: int| v[i]@)
}

impl View for ModRecord {
    type V = ModRecordView;

    open spec fn view(&self) -> ModRecordView {
        ModRecordView {
            mod_id: self.mod_id@,
            display_name: self.display_name@,
            file_name: self.file_name@,
            download_url: self.download_url@,
            declared_dependency_ids: string_views(self.declared_dependency_ids@),
        }
    }
}

/// The views of a sequence of records.
pub open spec fn record_views(v: Seq<ModRecord>) -> Seq<ModRecordView> {
    Seq::new(v.len(), |i: int| v[i]@)
}

/// The identifiers of a sequence of records, in the same order.
pub open spec fn ids_of(v: Seq<ModRecordView>) -> Seq<Seq<char>> {
    Seq::new(v.len(), |i: int| v[i].mod_id)
}

/// Copies a list of strings, element by element.
pub fn copy_strings(v: &Vec<String>) -> (r: Vec<String>)
    ensures
        string_views(r@) == string_views(v@),
{
    let mut out: Vec<String> = Vec::new();
    let mut i: usize = 0;
    while i < v.len()
        invariant
            i <= v.len(),
            out@.len() == i,
            forall|k: int| 0 <= k < i ==> out@[k]@ == v@[k]@,
        decreases v.len() - i,
    {
        out.push(v[i].clone());
        i += 1;
    }
    assert(string_views(out@) =~= string_views(v@));
    out
}

impl ModRecord {
    /// Builds a record from its five parts.
    pub fn new(
        mod_id: String,
        display_name: String,
        file_name: String,
        download_url: String,
        declared_dependency_ids: Vec<String>,
    ) -> (r: ModRecord)
        ensures
            r@ == (ModRecordView {
                mod_id: mod_id@,
                display_name: display_name@,
                file_name: file_name@,
                download_url: download_url@,
                declared_dependency_ids: string_views(declared_dependency_ids@),
            }),
    {
        ModRecord { mod_id, display_name, file_name, download_url, declared_dependency_ids }
    }

    /// An independent copy with the same value.
    pub fn duplicate(&self) -> (r: ModRecord)
        ensures
            r@ == self@,
    {
        ModRecord {
            mod_id: self.mod_id.clone(),
            display_name: self.display_name.clone(),
            file_name: self.file_name.clone(),
            download_url: self.download_url.clone(),
            declared_dependency_ids: copy_strings(&self.declared_dependency_ids),
        }
    }
}

} // verus!
