//! Small input-normalization helpers shared by the request handlers.

use vstd::prelude::*;

verus! {

/// What `str::to_lowercase` returns for the given characters: Unicode
/// lowercasing, a function of the characters alone.
pub uninterp spec fn lower_of(s: Seq<char>) -> Seq<char>;

/// Relies on `str::to_lowercase`: the result depends on the characters
/// alone, and an empty string stays empty.
#[verifier::external_body]
fn lowercase(s: &str) -> (r: String)
    ensures
        r@ == lower_of(s@),
        s@.len() == 0 ==> r@.len() == 0,
{
    s.to_lowercase()
}

/// The lowercased string when the allowed list holds it, else the
/// default: how free-form mode parameters are reduced to a known set.
pub fn str_or_default_if_exists_in_vec(s: &str, v: Vec<String>, default: &str) -> (r: String)
    ensures
        if crate::registry::list_has(v@, lower_of(s@)) {
            r@ == lower_of(s@)
        } else {
            r@ == default@
        },
{
    let st = lowercase(s);
    let mut i: usize = 0;
    while i < v.len()
        invariant
            i <= v@.len(),
            st@ == lower_of(s@),
            forall|k: int| 0 <= k < i ==> v@[k]@ != st@,
        decreases v@.len() - i,
    {
        if crate::text::str_eq(v[i].as_str(), st.as_str()) {
            proof {
                assert(crate::registry::list_has(v@, lower_of(s@)));
            }
            return st;
        }
        i = i + 1;
    }
    proof {
        if crate::registry::list_has(v@, lower_of(s@)) {
            let k = choose|k: int| 0 <= k < v@.len() && #[trigger] v@[k]@ == lower_of(s@);
            assert(false);
        }
    }
    let mut d = String::new();
    d.append(default);
    d
}

/// The accepted shapes of an uploaded data file.
pub enum FileKind {
    /// One JSON array of documents.
    Json,
    /// Comma-separated records, first line the field names.
    Csv,
    /// Tab-separated records, first line the field names.
    Tsv,
}

/// Decides how an uploaded file is to be read: by the lowercased piece
/// of its name after the last dot. A file over the size limit is
/// refused first; then only `json`, `csv` and `tsv` are accepted, the
/// latter two differing only in their separator.
pub fn file_import_plan(file_name: &str, file_size: usize, max_size: usize) -> (r: Result<
    FileKind,
    crate::errors::FileErrorTypes,
>)
    ensures
        ({
            let ext = crate::text::lower_seq(crate::text::after_last(file_name@, '.'));
            if file_size > max_size {
                r matches Result::Err(e) && (e matches crate::errors::FileErrorTypes::FileTooLarge(
                    found,
                    max,
                ) && found == file_size && max == max_size)
            } else if ext == "json"@ {
                r matches Result::Ok(k) && k is Json
            } else if ext == "csv"@ {
                r matches Result::Ok(k) && k is Csv
            } else if ext == "tsv"@ {
                r matches Result::Ok(k) && k is Tsv
            } else {
                r matches Result::Err(e) && (e
                    matches crate::errors::FileErrorTypes::InvalidFileExtension(v) && v@
                    == ".json, .csv, .tsv"@)
            }
        }),
{
    if file_size > max_size {
        return Result::Err(crate::errors::FileErrorTypes::FileTooLarge(file_size, max_size));
    }
    let chars = crate::text::str_to_chars(file_name);
    let tail = crate::text::suffix_after_last(&chars, '.');
    let lowered = crate::text::lower_chars(&tail);
    let ext = crate::text::chars_to_string(&lowered);
    if crate::text::str_eq(ext.as_str(), "json") {
        Result::Ok(FileKind::Json)
    } else if crate::text::str_eq(ext.as_str(), "csv") {
        Result::Ok(FileKind::Csv)
    } else if crate::text::str_eq(ext.as_str(), "tsv") {
        Result::Ok(FileKind::Tsv)
    } else {
        let mut valid = String::new();
        valid.append(".json, .csv, .tsv");
        Result::Err(crate::errors::FileErrorTypes::InvalidFileExtension(valid))
    }
}

} // verus!
