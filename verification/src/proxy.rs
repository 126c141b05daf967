//! The HTTP proxy's pure logic: mapping a method name to a request kind,
//! and packing a response's status and body into the JSON envelope that is
//! handed back to the caller.

use vstd::prelude::*;

use crate::numfmt::dec_digits;
use crate::numfmt::u16_to_decimal;

verus! {

/// The request kinds the proxy issues.
#[derive(Clone, Copy, PartialEq, Eq, Structural, Debug)]
pub enum HttpMethod {
    Get,
    Post,
    Put,
    Delete,
    Patch,
}

/// ASCII upper-casing of one byte.
pub open spec fn ascii_upper(b: u8) -> u8 {
    if 97 <= b <= 122 {
        (b - 32) as u8
    } else {
        b
    }
}

/// ASCII upper-casing of a byte string.
pub open spec fn upper_bytes(s: Seq<u8>) -> Seq<u8> {
    s.map_values(|b: u8| ascii_upper(b))
}

/// The method a name selects, compared ASCII-case-insensitively;
/// unrecognized names fall back to GET.
pub open spec fn method_of(s: Seq<u8>) -> HttpMethod {
    let u = upper_bytes(s);
    if u == seq![80u8, 79u8, 83u8, 84u8] {  // POST
        HttpMethod::Post
    } else if u == seq![80u8, 85u8, 84u8] {  // PUT
        HttpMethod::Put
    } else if u == seq![68u8, 69u8, 76u8, 69u8, 84u8, 69u8] {  // DELETE
        HttpMethod::Delete
    } else if u == seq![80u8, 65u8, 84u8, 67u8, 72u8] {  // PATCH
        HttpMethod::Patch
    } else {
        HttpMethod::Get
    }
}

fn upper_exec(b: u8) -> (r: u8)
    ensures
        r == ascii_upper(b),
{
    if 97 <= b && b <= 122 {
        b - 32
    } else {
        b
    }
}

/// Compares the upper-cased method name against one candidate.
fn upper_eq(m: &Vec<u8>, pat: &Vec<u8>) -> (r: bool)
    ensures
        r == (upper_bytes(m@) == pat@),
{
    let n = m.len();
    if n != pat.len() {
        proof {
            assert(upper_bytes(m@).len() == m@.len());
        }
        return false;
    }
    let mut i: usize = 0;
    let mut same: bool = true;
    while i < n
        invariant
            i <= n,
            n == m@.len() == pat@.len(),
            same == (forall|j: int| 0 <= j < i ==> upper_bytes(m@)[j] == pat@[j]),
        decreases n - i,
    {
        let u = upper_exec(m[i]);
        if u != pat[i] {
            same = false;
        }
        proof {
            assert(upper_bytes(m@)[i as int] == ascii_upper(m@[i as int]));
        }
        i = i + 1;
    }
    proof {
        if same {
            assert(upper_bytes(m@) =~= pat@);
        } else {
            assert(upper_bytes(m@) != pat@);
        }
    }
    same
}

/// Selects the request kind for a method name, as `method_of` describes.
pub fn method_kind(m: &Vec<u8>) -> (r: HttpMethod)
    ensures
        r == method_of(m@),
{
    let mut post: Vec<u8> = Vec::new();
    post.push(80);
    post.push(79);
    post.push(83);
    post.push(84);
    let mut put: Vec<u8> = Vec::new();
    put.push(80);
    put.push(85);
    put.push(84);
    let mut delete: Vec<u8> = Vec::new();
    delete.push(68);
    delete.push(69);
    delete.push(76);
    delete.push(69);
    delete.push(84);
    delete.push(69);
    let mut patch: Vec<u8> = Vec::new();
    patch.push(80);
    patch.push(65);
    patch.push(84);
    patch.push(67);
    patch.push(72);
    proof {
        assert(post@ =~= seq![80u8, 79u8, 83u8, 84u8]);
        assert(put@ =~= seq![80u8, 85u8, 84u8]);
        assert(delete@ =~= seq![68u8, 69u8, 76u8, 69u8, 84u8, 69u8]);
        assert(patch@ =~= seq![80u8, 65u8, 84u8, 67u8, 72u8]);
    }
    if upper_eq(m, &post) {
        HttpMethod::Post
    } else if upper_eq(m, &put) {
        HttpMethod::Put
    } else if upper_eq(m, &delete) {
        HttpMethod::Delete
    } else if upper_eq(m, &patch) {
        HttpMethod::Patch
    } else {
        HttpMethod::Get
    }
}

/// One lowercase hexadecimal digit.
pub open spec fn hex_digit(n: int) -> u8 {
    if n < 10 {
        (48 + n) as u8
    } else {
        (87 + n) as u8
    }
}

/// How one body byte is written inside a JSON string: quote and backslash
/// get a backslash, the named control characters their short escapes, other
/// control bytes a \u00XX escape, and everything else stands as it is.
pub open spec fn esc_byte(b: u8) -> Seq<u8> {
    if b == 34 {
        seq![92u8, 34u8]
    } else if b == 92 {
        seq![92u8, 92u8]
    } else if b == 8 {
        seq![92u8, 98u8]
    } else if b == 12 {
        seq![92u8, 102u8]
    } else if b == 10 {
        seq![92u8, 110u8]
    } else if b == 13 {
        seq![92u8, 114u8]
    } else if b == 9 {
        seq![92u8, 116u8]
    } else if b < 32 {
        seq![92u8, 117u8, 48u8, 48u8, hex_digit(b as int / 16), hex_digit(b as int % 16)]
    } else {
        seq![b]
    }
}

/// A byte string written inside a JSON string.
pub open spec fn esc_bytes(s: Seq<u8>) -> Seq<u8>
    decreases s.len(),
{
    if s.len() == 0 {
        Seq::<u8>::empty()
    } else {
        esc_byte(s[0]) + esc_bytes(s.skip(1))
    }
}

proof fn lemma_esc_bytes_snoc(s: Seq<u8>, b: u8)
    ensures
        esc_bytes(s + seq![b]) == esc_bytes(s) + esc_byte(b),
    decreases s.len(),
{
    let t = s + seq![b];
    if s.len() == 0 {
        assert(t[0] == b);
        assert(t.skip(1) =~= Seq::<u8>::empty());
        assert(esc_bytes(t) == esc_byte(b) + esc_bytes(Seq::<u8>::empty()));
        assert(esc_byte(b) + Seq::<u8>::empty() =~= esc_byte(b));
        assert(esc_bytes(s) + esc_byte(b) =~= esc_byte(b));
    } else {
        assert(t[0] == s[0]);
        assert(t.skip(1) =~= s.skip(1) + seq![b]);
        assert(esc_bytes(t) == esc_byte(s[0]) + esc_bytes(s.skip(1) + seq![b]));
        lemma_esc_bytes_snoc(s.skip(1), b);
        assert(esc_byte(s[0]) + (esc_bytes(s.skip(1)) + esc_byte(b)) =~= (esc_byte(s[0])
            + esc_bytes(s.skip(1))) + esc_byte(b));
        assert(esc_bytes(s) == esc_byte(s[0]) + esc_bytes(s.skip(1)));
    }
}

/// Appends the JSON-escaped form of `body` to `out`.
fn push_escaped(out: &mut Vec<u8>, body: &Vec<u8>)
    ensures
        final(out)@ == old(out)@ + esc_bytes(body@),
{
    let n = body.len();
    let mut i: usize = 0;
    proof {
        assert(body@.take(0) =~= Seq::<u8>::empty());
        assert(out@ =~= out@ + esc_bytes(body@.take(0)));
    }
    while i < n
        invariant
            i <= n,
            n == body@.len(),
            out@ == old(out)@ + esc_bytes(body@.take(i as int)),
        decreases n - i,
    {
        let b = body[i];
        let ghost pre = out@;
        if b == 34 {
            out.push(92);
            out.push(34);
        } else if b == 92 {
            out.push(92);
            out.push(92);
        } else if b == 8 {
            out.push(92);
            out.push(98);
        } else if b == 12 {
            out.push(92);
            out.push(102);
        } else if b == 10 {
            out.push(92);
            out.push(110);
        } else if b == 13 {
            out.push(92);
            out.push(114);
        } else if b == 9 {
            out.push(92);
            out.push(116);
        } else if b < 32 {
            out.push(92);
            out.push(117);
            out.push(48);
            out.push(48);
            let hi = b / 16;
            let lo = b % 16;
            out.push(if hi < 10 { 48 + hi } else { 87 + hi });
            out.push(if lo < 10 { 48 + lo } else { 87 + lo });
        } else {
            out.push(b);
        }
        proof {
            assert(out@ =~= pre + esc_byte(b));
            lemma_esc_bytes_snoc(body@.take(i as int), b);
            assert(body@.take(i as int) + seq![b] =~= body@.take(i as int + 1));
        }
        i = i + 1;
    }
    proof {
        assert(body@.take(n as int) =~= body@);
    }
}

/// The JSON envelope the proxy returns for a response: status as a bare
/// number, body as a JSON string, in a two-field object. Every status —
/// including client and server errors — is packed the same way: a non-2xx
/// response is an answer, not a failure of the proxy.
pub open spec fn envelope_bytes(status: nat, body: Seq<u8>) -> Seq<u8> {
    seq![123u8, 34u8, 115u8, 116u8, 97u8, 116u8, 117u8, 115u8, 34u8, 58u8]  // {"status":
        + dec_digits(status) + seq![44u8, 34u8, 98u8, 111u8, 100u8, 121u8, 34u8, 58u8, 34u8]  // ,"body":"
        + esc_bytes(body) + seq![34u8, 125u8]  // "}
}

/// Packs a response into the proxy's JSON envelope, as `envelope_bytes`
/// describes.
pub fn proxy_envelope(status: u16, body: &Vec<u8>) -> (r: Vec<u8>)
    ensures
        r@ == envelope_bytes(status as nat, body@),
{
    let mut r: Vec<u8> = Vec::new();
    r.push(123);
    r.push(34);
    r.push(115);
    r.push(116);
    r.push(97);
    r.push(116);
    r.push(117);
    r.push(115);
    r.push(34);
    r.push(58);
    let mut digits = u16_to_decimal(status);
    r.append(&mut digits);
    r.push(44);
    r.push(34);
    r.push(98);
    r.push(111);
    r.push(100);
    r.push(121);
    r.push(34);
    r.push(58);
    r.push(34);
    push_escaped(&mut r, body);
    r.push(34);
    r.push(125);
    assert(r@ =~= envelope_bytes(status as nat, body@));
    r
}

/// The payload of the update-available notice: the new version as a JSON
/// string, and the release notes as a JSON string or null when the update
/// carries none.
pub open spec fn update_payload_bytes(version: Seq<u8>, body: Option<Seq<u8>>) -> Seq<u8> {
    let notes = match body {
        Some(b) => seq![34u8] + esc_bytes(b) + seq![34u8],
        None => seq![110u8, 117u8, 108u8, 108u8],  // null
    };
    seq![123u8, 34u8, 118u8, 101u8, 114u8, 115u8, 105u8, 111u8, 110u8, 34u8, 58u8, 34u8]  // {"version":"
        + esc_bytes(version) + seq![34u8, 44u8, 34u8, 98u8, 111u8, 100u8, 121u8, 34u8, 58u8]  // ","body":
        + notes + seq![125u8]  // }
}

/// Packs an update notice, as `update_payload_bytes` describes.
pub fn update_payload(version: &Vec<u8>, body: Option<&Vec<u8>>) -> (r: Vec<u8>)
    ensures
        r@ == update_payload_bytes(
            version@,
            match body {
                Some(b) => Some(b@),
                None => None,
            },
        ),
{
    let mut r: Vec<u8> = Vec::new();
    r.push(123);
    r.push(34);
    r.push(118);
    r.push(101);
    r.push(114);
    r.push(115);
    r.push(105);
    r.push(111);
    r.push(110);
    r.push(34);
    r.push(58);
    r.push(34);
    push_escaped(&mut r, version);
    r.push(34);
    r.push(44);
    r.push(34);
    r.push(98);
    r.push(111);
    r.push(100);
    r.push(121);
    r.push(34);
    r.push(58);
    match body {
        Some(b) => {
            r.push(34);
            push_escaped(&mut r, b);
            r.push(34);
        },
        None => {
            r.push(110);
            r.push(117);
            r.push(108);
            r.push(108);
        },
    }
    r.push(125);
    assert(r@ =~= update_payload_bytes(
        version@,
        match body {
            Some(b) => Some(b@),
            None => None,
        },
    ));
    r
}

} // verus!
