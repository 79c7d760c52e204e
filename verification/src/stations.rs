//! Rules for the stations of the café: their kind, their identifiers, and
//! what renaming or removing one involves.
use vstd::prelude::*;

use crate::ids::{is_lower_hex, new_uuid, uuid_shaped};
use crate::text::{chars_of, slice_chars, str_equal, string_of};

verus! {

/// The kind stored for a requested station kind: `vr` when that is asked
/// for, `standard` for anything else or nothing.
pub open spec fn station_kind(requested: Option<Seq<char>>) -> Seq<char> {
    if requested == Some("vr"@) {
        "vr"@
    } else {
        "standard"@
    }
}

/// The kind stored for a requested station kind (see `station_kind`).
pub fn station_type(requested: Option<&str>) -> (r: &'static str)
    ensures
        r@ == station_kind(crate::billing::opt_view(requested)),
{
    match requested {
        Some(t) => if str_equal(t, "vr") {
            "vr"
        } else {
            "standard"
        },
        None => "standard",
    }
}

/// A station identifier made from a UUID text: `pc-` and its first eight
/// characters.
pub fn station_id_for(uuid: &str) -> (r: String)
    requires
        uuid@.len() >= 8,
        forall|i: int| 0 <= i < 8 ==> (#[trigger] uuid@[i] as u32) < 128,
    ensures
        r@ == "pc-"@ + uuid@.take(8),
{
    let v = chars_of(uuid);
    let head = slice_chars(&v, 0, 8);
    let mut out = chars_of("pc-");
    let mut k: usize = 0;
    let ghost start = out@;
    while k < 8
        invariant
            k <= 8,
            head@.len() == 8,
            out@ == start + head@.take(k as int),
        decreases 8 - k,
    {
        out.push(head[k]);
        k = k + 1;
        assert(out@ =~= start + head@.take(k as int));
    }
    assert(head@ =~= uuid@.take(8));
    assert(head@.take(8) =~= head@);
    string_of(&out)
}

/// A fresh station identifier: `pc-` and the first eight characters of a
/// fresh UUID, so eight lower-case hexadecimal digits.
pub fn new_station_id() -> (r: String)
    ensures
        r@.len() == 11,
        r@.take(3) == "pc-"@,
        forall|i: int| 3 <= i < 11 ==> is_lower_hex(#[trigger] r@[i]),
{
    let u = new_uuid();
    proof {
        assert forall|i: int| 0 <= i < 8 implies (#[trigger] u@[i] as u32) < 128 by {
            assert(is_lower_hex(u@[i]));
        }
    }
    let r = station_id_for(u.as_str());
    proof {
        reveal_strlit("pc-");
        assert(r@.take(3) =~= "pc-"@);
        assert forall|i: int| 3 <= i < 11 implies is_lower_hex(#[trigger] r@[i]) by {
            assert(r@[i] == u@[i - 3]);
            assert(is_lower_hex(u@[i - 3]));
        }
    }
    r
}

/// Whether renaming a station from `old_name` (if it was found) to
/// `new_name` must carry the new name into its sessions, history and
/// orders: only when it was found under another name.
pub fn rename_cascades(old_name: Option<&str>, new_name: &str) -> (r: bool)
    ensures
        r == (old_name matches Some(o) && o@ != new_name@),
{
    match old_name {
        Some(o) => !str_equal(o, new_name),
        None => false,
    }
}

/// Checks that a station may be removed: not while it has an active
/// session.
pub fn check_station_removal(has_active_session: bool) -> (r: Result<(), String>)
    ensures
        r is Ok <==> !has_active_session,
        r matches Err(m) ==> m@ == "Aktif oturumu olan istasyon silinemez"@,
{
    if has_active_session {
        return Err("Aktif oturumu olan istasyon silinemez".to_string());
    }
    Ok(())
}

} // verus!
