use crate::model::{CursorDeviceInfo, DeviceIdentity};
use rand::Rng;
use uuid::Uuid;
use vstd::prelude::*;

verus! {

pub open spec fn is_lower_hex(c: char) -> bool {
    ('0' <= c && c <= '9') || ('a' <= c && c <= 'f')
}

pub open spec fn is_upper_hex(c: char) -> bool {
    ('0' <= c && c <= '9') || ('A' <= c && c <= 'F')
}

/// Positions of the hyphens in the 36-character UUID text form.
pub open spec fn is_hyphen_position(i: int) -> bool {
    i == 8 || i == 13 || i == 18 || i == 23
}

/// The canonical text form of a version-4 UUID, with hex digits that satisfy
/// `hex`: 36 characters, hyphens at positions 8, 13, 18 and 23, the version
/// digit `4` at position 14 and one of `8 9 a b` (in the same case) at 19.
pub open spec fn is_v4_uuid_text(s: Seq<char>, upper: bool) -> bool {
    &&& s.len() == 36
    &&& forall|i: int|
        0 <= i < 36 ==> if is_hyphen_position(i) {
            s[i] == '-'
        } else if upper {
            is_upper_hex(#[trigger] s[i])
        } else {
            is_lower_hex(s[i])
        }
    &&& s[14] == '4'
    &&& (s[19] == '8' || s[19] == '9' || (if upper {
        s[19] == 'A' || s[19] == 'B'
    } else {
        s[19] == 'a' || s[19] == 'b'
    }))
}

/// `s` consists of lowercase hexadecimal digits only.
pub open spec fn is_lower_hex_text(s: Seq<char>) -> bool {
    forall|i: int| 0 <= i < s.len() ==> is_lower_hex(#[trigger] s[i])
}

/// The lowercase hexadecimal digit for `d`, below 16.
pub open spec fn hex_digit(d: u8) -> char {
    if d < 10 {
        (('0' as u8) + d) as char
    } else {
        (('a' as u8) + d - 10) as char
    }
}

/// `c` with a lowercase `a`-`f` raised to uppercase.
pub open spec fn upper_hex_char(c: char) -> char {
    if 'a' <= c && c <= 'f' {
        ((c as u8) - 32) as char
    } else {
        c
    }
}

pub open spec fn upper_hex_text(s: Seq<char>) -> Seq<char> {
    s.map_values(|c: char| upper_hex_char(c))
}

/// `s` in braces.
pub open spec fn braced(s: Seq<char>) -> Seq<char> {
    seq!['{'] + s + seq!['}']
}

/// The formats that the identity fields must have.
pub open spec fn is_well_formed_identity(d: DeviceIdentity) -> bool {
    &&& is_v4_uuid_text(d.mac_machine_id, false)
    &&& d.machine_id.len() == 64
    &&& is_lower_hex_text(d.machine_id)
    &&& d.sqm_id.len() == 38
    &&& d.sqm_id[0] == '{'
    &&& d.sqm_id[37] == '}'
    &&& is_v4_uuid_text(d.sqm_id.subrange(1, 37), true)
    &&& is_v4_uuid_text(d.dev_device_id, false)
}

/// Relies on uuid's Uuid::new_v4, which sets the version and RFC 4122
/// variant bits, and on its Display, which writes the lowercase hyphenated
/// form.
#[verifier::external_body]
fn new_v4_text() -> (r: String)
    ensures
        is_v4_uuid_text(r@, false),
{
    Uuid::new_v4().to_string()
}

/// Relies on rand's Rng::random_range over the thread-local generator: a
/// value of the half-open range 0..16.
#[verifier::external_body]
fn random_nibble() -> (r: u8)
    ensures
        r < 16,
{
    rand::rng().random_range(0..16u8)
}

fn push_hex_digit(s: &mut String, d: u8)
    requires
        d < 16,
    ensures
        final(s)@ == old(s)@.push(hex_digit(d)),
{
    let digits = "0123456789abcdef";
    proof {
        reveal_strlit("0123456789abcdef");
    }
    let one = digits.substring_char(d as usize, d as usize + 1);
    s.append(one);
    proof {
        assert(one@ =~= seq![hex_digit(d)]) by {
            assert(one@[0] == digits@[d as int]);
            assert(hex_digit(d) == digits@[d as int]);
        }
    }
}

/// The lowercase hexadecimal text of the digits `digits`, each below 16.
pub fn hex_string_from_digits(digits: &Vec<u8>) -> (r: String)
    requires
        forall|i: int| 0 <= i < digits@.len() ==> digits@[i] < 16,
    ensures
        r@ == digits@.map_values(|d: u8| hex_digit(d)),
{
    let mut r = String::new();
    let mut i: usize = 0;
    while i < digits.len()
        invariant
            0 <= i <= digits.len(),
            forall|k: int| 0 <= k < digits@.len() ==> digits@[k] < 16,
            r@ =~= digits@.subrange(0, i as int).map_values(|d: u8| hex_digit(d)),
        decreases digits.len() - i,
    {
        push_hex_digit(&mut r, digits[i]);
        assert(digits@.subrange(0, i + 1).map_values(|d: u8| hex_digit(d)) =~= digits@.subrange(
            0,
            i as int,
        ).map_values(|d: u8| hex_digit(d)).push(hex_digit(digits@[i as int])));
        i = i + 1;
    }
    assert(digits@.subrange(0, digits.len() as int) =~= digits@);
    r
}

proof fn lemma_hex_digit_is_lower_hex(d: u8)
    requires
        d < 16,
    ensures
        is_lower_hex(hex_digit(d)),
{
}

/// `n` random values below 16, drawn independently.
fn random_digits(n: usize) -> (r: Vec<u8>)
    ensures
        r@.len() == n,
        forall|i: int| 0 <= i < r@.len() ==> r@[i] < 16,
{
    let mut r: Vec<u8> = Vec::new();
    let mut i: usize = 0;
    while i < n
        invariant
            0 <= i <= n,
            r@.len() == i,
            forall|k: int| 0 <= k < r@.len() ==> r@[k] < 16,
        decreases n - i,
    {
        r.push(random_nibble());
        i = i + 1;
    }
    r
}

proof fn lemma_hex_text_of_digits(digits: Seq<u8>)
    requires
        forall|i: int| 0 <= i < digits.len() ==> digits[i] < 16,
    ensures
        is_lower_hex_text(digits.map_values(|d: u8| hex_digit(d))),
{
    let t = digits.map_values(|d: u8| hex_digit(d));
    assert forall|i: int| 0 <= i < t.len() implies is_lower_hex(#[trigger] t[i]) by {
        lemma_hex_digit_is_lower_hex(digits[i]);
    }
}

/// `size` hexadecimal digits, lowercase, each drawn independently and
/// uniformly.
pub fn generate_hex_str(size: i32) -> (r: String)
    requires
        size >= 0,
    ensures
        r@.len() == size,
        is_lower_hex_text(r@),
{
    let digits = random_digits(size as usize);
    proof {
        lemma_hex_text_of_digits(digits@);
    }
    hex_string_from_digits(&digits)
}

/// `s` with every lowercase hexadecimal letter raised to uppercase.
pub fn upper_hex_string(s: &str) -> (r: String)
    ensures
        r@ == upper_hex_text(s@),
{
    let upper = "ABCDEF";
    proof {
        reveal_strlit("ABCDEF");
    }
    let n = s.unicode_len();
    let mut r = String::new();
    let mut i: usize = 0;
    while i < n
        invariant
            0 <= i <= n,
            n == s@.len(),
            upper@ == seq!['A', 'B', 'C', 'D', 'E', 'F'],
            r@ =~= upper_hex_text(s@.subrange(0, i as int)),
        decreases n - i,
    {
        let c = s.get_char(i);
        if 'a' <= c && c <= 'f' {
            assert('a' as u32 == 97 && 'f' as u32 == 102);
            let k = (c as u32 - 'a' as u32) as usize;
            assert(k < 6);
            let one = upper.substring_char(k, k + 1);
            assert(one@ =~= seq![upper_hex_char(c)]) by {
                assert(one@[0] == upper@[k as int]);
            }
            r.append(one);
        } else {
            let one = s.substring_char(i, i + 1);
            assert(one@ =~= seq![upper_hex_char(c)]);
            r.append(one);
        }
        assert(upper_hex_text(s@.subrange(0, i + 1)) =~= upper_hex_text(s@.subrange(0, i as int)).push(
            upper_hex_char(c),
        ));
        i = i + 1;
    }
    assert(s@.subrange(0, n as int) =~= s@);
    r
}

/// The `sqmId` form of a UUID text: raised to uppercase and put in braces.
pub fn sqm_id_from_uuid(uuid_text: &str) -> (r: String)
    ensures
        r@ == braced(upper_hex_text(uuid_text@)),
{
    let mut r = String::from_str("{");
    let inner = upper_hex_string(uuid_text);
    r.append(inner.as_str());
    r.append("}");
    proof {
        reveal_strlit("{");
        reveal_strlit("}");
        assert(r@ =~= braced(upper_hex_text(uuid_text@)));
    }
    r
}

/// The identity record built from its random parts: the two UUID texts as
/// given, `machineId` as the hexadecimal text of `digits` and `sqmId` as the
/// braced uppercase form of `sqm_uuid`.
pub fn identity_from_parts(mac_uuid: String, digits: &Vec<u8>, sqm_uuid: &str, dev_uuid: String)
    -> (r: CursorDeviceInfo)
    requires
        forall|i: int| 0 <= i < digits@.len() ==> digits@[i] < 16,
    ensures
        r@ == (DeviceIdentity {
            mac_machine_id: mac_uuid@,
            machine_id: digits@.map_values(|d: u8| hex_digit(d)),
            sqm_id: braced(upper_hex_text(sqm_uuid@)),
            dev_device_id: dev_uuid@,
        }),
{
    let machine_id = hex_string_from_digits(digits);
    let sqm_id = sqm_id_from_uuid(sqm_uuid);
    CursorDeviceInfo::new(mac_uuid, machine_id, sqm_id, dev_uuid)
}

proof fn lemma_upper_uuid(s: Seq<char>)
    requires
        is_v4_uuid_text(s, false),
    ensures
        is_v4_uuid_text(upper_hex_text(s), true),
        upper_hex_text(s).len() == 36,
{
    let u = upper_hex_text(s);
    assert forall|i: int| 0 <= i < 36 implies if is_hyphen_position(i) {
        u[i] == '-'
    } else {
        is_upper_hex(#[trigger] u[i])
    } by {
        assert(u[i] == upper_hex_char(s[i]));
        if !is_hyphen_position(i) {
            assert(is_lower_hex(s[i]));
        }
    }
    assert(u[14] == upper_hex_char(s[14]));
    assert(u[19] == upper_hex_char(s[19]));
}

/// A fresh identity record: two independent version-4 UUIDs in canonical
/// lowercase form, 64 random lowercase hexadecimal digits, and a third
/// version-4 UUID in uppercase within braces.
pub fn generate_identity() -> (r: CursorDeviceInfo)
    ensures
        is_well_formed_identity(r@),
{
    let mac = new_v4_text();
    let digits = random_digits(64);
    let sqm_uuid = new_v4_text();
    let dev = new_v4_text();
    let r = identity_from_parts(mac, &digits, sqm_uuid.as_str(), dev);
    proof {
        lemma_hex_text_of_digits(digits@);
        lemma_upper_uuid(sqm_uuid@);
        assert(r@.sqm_id.subrange(1, 37) =~= upper_hex_text(sqm_uuid@));
    }
    r
}

} // verus!
