//! Naming of the compressed archive of the folder.

use vstd::prelude::*;

verus! {

/// A lowercase hexadecimal digit.
pub open spec fn is_lower_hex_digit(c: char) -> bool {
    ('0' <= c && c <= '9') || ('a' <= c && c <= 'f')
}

/// The hyphenated lowercase text of a random (version 4) UUID:
/// `xxxxxxxx-xxxx-4xxx-Nxxx-xxxxxxxxxxxx` with `N` one of `8`, `9`, `a`, `b`.
pub open spec fn is_random_uuid_text(s: Seq<char>) -> bool {
    &&& s.len() == 36
    &&& forall|i: int|
        0 <= i < 36 ==> if i == 8 || i == 13 || i == 18 || i == 23 {
            #[trigger] s[i] == '-'
        } else {
            is_lower_hex_digit(s[i])
        }
    &&& s[14] == '4'
    &&& (s[19] == '8' || s[19] == '9' || s[19] == 'a' || s[19] == 'b')
}

/// A fresh random UUID, `uuid::Uuid::new_v4`, in its `Display` form.
/// Trusted: the text is the hyphenated lowercase form of a version 4, RFC variant UUID, as the
/// `uuid` source writes it. Which UUID comes out is left open: it comes from the operating
/// system's random number generator (and the call panics if that generator fails).
#[verifier::external_body]
fn random_uuid() -> (id: String)
    ensures
        is_random_uuid_text(id@),
{
    uuid::Uuid::new_v4().to_string()
}

/// The name of the archive file made for the run identified by `id`: `id` + `.tar.gz`.
pub fn archive_file_name(id: &str) -> (res: String)
    ensures
        res@ == id@ + ".tar.gz"@,
{
    let mut res = String::from_str(id);
    res.append(".tar.gz");
    res
}

/// A random name for the temporary archive: a fresh random UUID followed by `.tar.gz`.
pub fn temp_archive_name() -> (res: String)
    ensures
        res@.len() >= 36,
        is_random_uuid_text(res@.take(36)),
        res@.skip(36) == ".tar.gz"@,
{
    let id = random_uuid();
    let res = archive_file_name(id.as_str());
    assert(res@.take(36) =~= id@);
    assert(res@.skip(36) =~= ".tar.gz"@);
    res
}

} // verus!
