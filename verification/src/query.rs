//! The manager query codec: a request is a series of length-prefixed
//! (two-byte big-endian) name/value byte strings, terminated by two
//! zero-length strings; the reply uses the same encoding and names the
//! chosen server and port. Sending and receiving the datagrams happens
//! outside this crate.

use vstd::prelude::*;
use crate::wire::{be16_value, be16_bytes, push_u16_be};

verus! {

/// One length-prefixed value on the wire.
pub open spec fn spec_encoded_value(v: Seq<u8>) -> Seq<u8> {
    be16_bytes(v.len() as u16) + v
}

/// The wire form of a list of name/value pairs.
pub open spec fn spec_encode_pairs(ps: Seq<(Seq<u8>, Seq<u8>)>) -> Seq<u8>
    decreases ps.len(),
{
    if ps.len() == 0 {
        Seq::empty()
    } else {
        spec_encoded_value(ps[0].0) + spec_encoded_value(ps[0].1) + spec_encode_pairs(
            ps.drop_first(),
        )
    }
}

/// The wire form of a whole query: its pairs, then two zero-length strings.
pub open spec fn spec_query_bytes(ps: Seq<(Seq<u8>, Seq<u8>)>) -> Seq<u8> {
    spec_encode_pairs(ps) + be16_bytes(0) + be16_bytes(0)
}

/// The byte-string views of a vector of byte-vector pairs.
pub open spec fn pairs_view(q: Seq<(Vec<u8>, Vec<u8>)>) -> Seq<(Seq<u8>, Seq<u8>)> {
    q.map_values(|p: (Vec<u8>, Vec<u8>)| (p.0@, p.1@))
}

/// Append one length-prefixed value to the query bytes.
pub fn add_value(value: &[u8], query_bytes: &mut Vec<u8>)
    requires
        value@.len() <= 0xFFFF,
    ensures
        final(query_bytes)@ == old(query_bytes)@ + spec_encoded_value(value@),
{
    push_u16_be(query_bytes, value.len() as u16);
    let mut i: usize = 0;
    while i < value.len()
        invariant
            i <= value@.len(),
            value@.len() <= 0xFFFF,
            query_bytes@ == old(query_bytes)@ + be16_bytes(value@.len() as u16) + value@.take(
                i as int,
            ),
        decreases value@.len() - i,
    {
        query_bytes.push(value[i]);
        proof {
            assert(query_bytes@ =~= old(query_bytes)@ + be16_bytes(value@.len() as u16)
                + value@.take(i + 1));
        }
        i = i + 1;
    }
    proof {
        assert(value@.take(value@.len() as int) =~= value@);
        assert(query_bytes@ =~= old(query_bytes)@ + spec_encoded_value(value@));
    }
}

/// The wire bytes of a query made of the given name/value pairs.
pub fn get_query_bytes(query: &Vec<(Vec<u8>, Vec<u8>)>) -> (r: Vec<u8>)
    requires
        forall|k: int|
            0 <= k < query@.len() ==> (#[trigger] query@[k]).0@.len() <= 0xFFFF
                && query@[k].1@.len() <= 0xFFFF,
    ensures
        r@ == spec_query_bytes(pairs_view(query@)),
{
    let mut query_bytes: Vec<u8> = Vec::new();
    let mut i: usize = 0;
    while i < query.len()
        invariant
            i <= query@.len(),
            forall|k: int|
                0 <= k < query@.len() ==> (#[trigger] query@[k]).0@.len() <= 0xFFFF
                    && query@[k].1@.len() <= 0xFFFF,
            query_bytes@ == spec_encode_pairs(pairs_view(query@.take(i as int))),
        decreases query@.len() - i,
    {
        add_value(query[i].0.as_slice(), &mut query_bytes);
        add_value(query[i].1.as_slice(), &mut query_bytes);
        proof {
            lemma_encode_pairs_take_step(pairs_view(query@), i as int);
            assert(pairs_view(query@.take(i as int)) =~= pairs_view(query@).take(i as int));
            assert(pairs_view(query@.take(i + 1)) =~= pairs_view(query@).take(i + 1));
            assert(query_bytes@ =~= spec_encode_pairs(pairs_view(query@).take(i as int))
                + spec_encoded_value(query@[i as int].0@) + spec_encoded_value(
                query@[i as int].1@,
            ));
        }
        i = i + 1;
    }
    let terminator: Vec<u8> = Vec::new();
    add_value(terminator.as_slice(), &mut query_bytes);
    add_value(terminator.as_slice(), &mut query_bytes);
    proof {
        assert(query@.take(query@.len() as int) =~= query@);
        assert(terminator@ =~= Seq::<u8>::empty());
        assert(spec_encoded_value(terminator@) =~= be16_bytes(0));
        assert(query_bytes@ =~= spec_query_bytes(pairs_view(query@)));
    }
    query_bytes
}

/// Appending one pair to a list appends its two encoded values.
proof fn lemma_encode_pairs_take_step(ps: Seq<(Seq<u8>, Seq<u8>)>, i: int)
    requires
        0 <= i < ps.len(),
    ensures
        spec_encode_pairs(ps.take(i + 1)) == spec_encode_pairs(ps.take(i)) + spec_encoded_value(
            ps[i].0,
        ) + spec_encoded_value(ps[i].1),
    decreases i,
{
    if i == 0 {
        assert(ps.take(1).drop_first() =~= Seq::<(Seq<u8>, Seq<u8>)>::empty());
        assert(ps.take(0) =~= Seq::<(Seq<u8>, Seq<u8>)>::empty());
        assert(spec_encode_pairs(ps.take(1)) =~= spec_encode_pairs(ps.take(0))
            + spec_encoded_value(ps[0].0) + spec_encoded_value(ps[0].1));
    } else {
        lemma_encode_pairs_take_step(ps.drop_first(), i - 1);
        assert(ps.take(i + 1).drop_first() =~= ps.drop_first().take(i));
        assert(ps.take(i).drop_first() =~= ps.drop_first().take(i - 1));
        assert(ps.drop_first()[i - 1] == ps[i]);
        assert(spec_encode_pairs(ps.take(i + 1)) =~= spec_encode_pairs(ps.take(i))
            + spec_encoded_value(ps[i].0) + spec_encoded_value(ps[i].1));
    }
}

/// Ten to the `k`-th power.
pub open spec fn pow10(k: nat) -> int
    decreases k,
{
    if k == 0 {
        1
    } else {
        10 * pow10((k - 1) as nat)
    }
}

/// The decimal digits of a nonnegative number, most significant first.
pub open spec fn spec_decimal(n: int) -> Seq<u8>
    decreases n,
{
    if n < 10 {
        seq![(48 + if n >= 0 { n } else { 0 }) as u8]
    } else {
        spec_decimal(n / 10) + seq![(48 + n % 10) as u8]
    }
}

/// A number below ten to the `k` has at most `k` decimal digits.
pub proof fn lemma_decimal_len(n: int, k: nat)
    requires
        0 <= n < pow10(k),
        k >= 1,
    ensures
        spec_decimal(n).len() <= k,
    decreases k,
{
    if n >= 10 {
        assert(pow10(k) == 10 * pow10((k - 1) as nat));
        assert(n / 10 < pow10((k - 1) as nat)) by (nonlinear_arith)
            requires
                n < 10 * pow10((k - 1) as nat),
                n >= 10,
        ;
        assert(k >= 2) by {
            if k == 1 {
                assert(pow10(1nat) == 10);
            }
        }
        lemma_decimal_len(n / 10, (k - 1) as nat);
    }
}

/// The decimal digits of `n`, most significant first.
pub fn decimal_bytes(n: usize) -> (r: Vec<u8>)
    ensures
        r@ == spec_decimal(n as int),
    decreases n,
{
    if n < 10 {
        let r: Vec<u8> = vec![48 + n as u8];
        proof {
            assert(r@ =~= spec_decimal(n as int));
        }
        r
    } else {
        let mut r = decimal_bytes(n / 10);
        r.push(48 + (n % 10) as u8);
        proof {
            assert(r@ =~= spec_decimal(n as int));
        }
        r
    }
}

/// The fixed form-factor name this client reports.
pub fn form_factor_bytes() -> (r: Vec<u8>)
    ensures
        r@ =~= seq![73u8, 110u8, 87u8, 97u8, 108u8, 108u8, 80u8, 97u8, 110u8, 101u8, 108u8],
{
    // "InWallPanel"
    vec![73u8, 110u8, 87u8, 97u8, 108u8, 108u8, 80u8, 97u8, 110u8, 101u8, 108u8]
}

/// The query this panel sends to a located manager: its name, its screen
/// size in decimal, and the fixed form factor `InWallPanel`.
pub fn prepare_query(my_name: &[u8], xres: usize, yres: usize) -> (r: Vec<u8>)
    requires
        my_name@.len() <= 0xFFFF,
        xres <= 0xFFFF,
        yres <= 0xFFFF,
    ensures
        r@ == spec_query_bytes(
            seq![
                (seq![78u8, 97u8, 109u8, 101u8], my_name@),
                (
                    seq![
                        83u8, 99u8, 114u8, 101u8, 101u8, 110u8, 87u8, 105u8, 100u8, 116u8,
                        104u8,
                    ],
                    spec_decimal(xres as int),
                ),
                (
                    seq![
                        83u8, 99u8, 114u8, 101u8, 101u8, 110u8, 72u8, 101u8, 105u8, 103u8,
                        104u8, 116u8,
                    ],
                    spec_decimal(yres as int),
                ),
                (
                    seq![70u8, 111u8, 114u8, 109u8, 70u8, 97u8, 99u8, 116u8, 111u8, 114u8],
                    seq![73u8, 110u8, 87u8, 97u8, 108u8, 108u8, 80u8, 97u8, 110u8, 101u8, 108u8],
                ),
            ],
        ),
{
    proof {
        reveal_with_fuel(pow10, 6);
        lemma_decimal_len(xres as int, 5);
        lemma_decimal_len(yres as int, 5);
    }
    // "Name"
    let key_name: Vec<u8> = vec![78u8, 97u8, 109u8, 101u8];
    // "ScreenWidth"
    let key_width: Vec<u8> = vec![83u8, 99u8, 114u8, 101u8, 101u8, 110u8, 87u8, 105u8, 100u8,
        116u8, 104u8];
    // "ScreenHeight"
    let key_height: Vec<u8> = vec![83u8, 99u8, 114u8, 101u8, 101u8, 110u8, 72u8, 101u8, 105u8,
        103u8, 104u8, 116u8];
    // "FormFactor"
    let key_form: Vec<u8> = vec![70u8, 111u8, 114u8, 109u8, 70u8, 97u8, 99u8, 116u8, 111u8, 114u8];
    let name: Vec<u8> = vstd::slice::slice_to_vec(my_name);
    let width = decimal_bytes(xres);
    let height = decimal_bytes(yres);
    let form = form_factor_bytes();
    let mut query: Vec<(Vec<u8>, Vec<u8>)> = Vec::new();
    query.push((key_name, name));
    query.push((key_width, width));
    query.push((key_height, height));
    query.push((key_form, form));
    let r = get_query_bytes(&query);
    proof {
        assert(pairs_view(query@) =~= seq![
            (seq![78u8, 97u8, 109u8, 101u8], my_name@),
            (
                seq![83u8, 99u8, 114u8, 101u8, 101u8, 110u8, 87u8, 105u8, 100u8, 116u8, 104u8],
                spec_decimal(xres as int),
            ),
            (
                seq![
                    83u8, 99u8, 114u8, 101u8, 101u8, 110u8, 72u8, 101u8, 105u8, 103u8, 104u8,
                    116u8,
                ],
                spec_decimal(yres as int),
            ),
            (
                seq![70u8, 111u8, 114u8, 109u8, 70u8, 97u8, 99u8, 116u8, 111u8, 114u8],
                seq![73u8, 110u8, 87u8, 97u8, 108u8, 108u8, 80u8, 97u8, 110u8, 101u8, 108u8],
            ),
        ]);
    }
    r
}

/// One length-prefixed value at the front of `s`, and what follows it;
/// `None` when `s` is too short.
pub open spec fn spec_take_value(s: Seq<u8>) -> Option<(Seq<u8>, Seq<u8>)> {
    if s.len() >= 2 && s.len() >= 2 + be16_value(s[0], s[1]) {
        Some(
            (
                s.subrange(2, 2 + be16_value(s[0], s[1])),
                s.skip(2 + be16_value(s[0], s[1])),
            ),
        )
    } else {
        None
    }
}

/// The name/value pairs at the front of `s`, up to a zero-length name;
/// `None` when the bytes are truncated.
pub open spec fn spec_parse_pairs(s: Seq<u8>) -> Option<Seq<(Seq<u8>, Seq<u8>)>>
    decreases s.len(),
{
    match spec_take_value(s) {
        None => None,
        Some(nv) => if nv.0.len() == 0 {
            Some(Seq::empty())
        } else {
            match spec_take_value(nv.1) {
                None => None,
                Some(vv) => match spec_parse_pairs(vv.1) {
                    None => None,
                    Some(ps) => Some(seq![(nv.0, vv.0)] + ps),
                },
            }
        },
    }
}

/// Parse the pairs that start at offset `i`.
fn parse_pairs_at(bytes: &[u8], i: usize) -> (r: Option<Vec<(Vec<u8>, Vec<u8>)>>)
    requires
        i <= bytes@.len(),
    ensures
        match spec_parse_pairs(bytes@.skip(i as int)) {
            Some(ps) => r matches Some(v) && pairs_view(v@) == ps,
            None => r is None,
        },
    decreases bytes@.len() - i,
{
    let len = bytes.len();
    let ghost s = bytes@.skip(i as int);
    if len - i < 2 {
        return None;
    }
    let n = crate::wire::read_u16_be(bytes, i) as usize;
    proof {
        assert(s[0] == bytes@[i as int] && s[1] == bytes@[i + 1]);
    }
    if len - (i + 2) < n {
        return None;
    }
    let name = vstd::slice::slice_to_vec(&bytes[i + 2..i + 2 + n]);
    proof {
        assert(name@ =~= s.subrange(2, 2 + (n as int)));
        assert(bytes@.skip(i + 2 + n) =~= s.skip(2 + (n as int)));
    }
    if n == 0 {
        let empty: Vec<(Vec<u8>, Vec<u8>)> = Vec::new();
        proof {
            assert(pairs_view(empty@) =~= Seq::<(Seq<u8>, Seq<u8>)>::empty());
        }
        return Some(empty);
    }
    let j = i + 2 + n;
    let ghost s1 = bytes@.skip(j as int);
    if len - j < 2 {
        return None;
    }
    let m = crate::wire::read_u16_be(bytes, j) as usize;
    proof {
        assert(s1[0] == bytes@[j as int] && s1[1] == bytes@[j + 1]);
    }
    if len - (j + 2) < m {
        return None;
    }
    let value = vstd::slice::slice_to_vec(&bytes[j + 2..j + 2 + m]);
    proof {
        assert(value@ =~= s1.subrange(2, 2 + (m as int)));
        assert(bytes@.skip(j + 2 + m) =~= s1.skip(2 + (m as int)));
    }
    match parse_pairs_at(bytes, j + 2 + m) {
        None => None,
        Some(mut rest) => {
            let mut result: Vec<(Vec<u8>, Vec<u8>)> = Vec::new();
            result.push((name, value));
            let ghost head = pairs_view(result@);
            let ghost rest_view = pairs_view(rest@);
            result.append(&mut rest);
            proof {
                let ps = spec_parse_pairs(bytes@.skip(j + 2 + m)).unwrap();
                assert(pairs_view(result@) =~= head + rest_view);
                assert(head =~= seq![(s.subrange(2, 2 + (n as int)), s1.subrange(
                    2,
                    2 + (m as int),
                ))]);
                assert(pairs_view(result@) =~= spec_parse_pairs(s).unwrap());
            }
            Some(result)
        },
    }
}

/// Parse a query or reply: its name/value pairs up to the zero-length
/// terminator. `None` when the bytes are truncated; bytes after the
/// terminator are ignored.
pub fn parse_query_bytes(query_bytes: &[u8]) -> (r: Option<Vec<(Vec<u8>, Vec<u8>)>>)
    ensures
        match spec_parse_pairs(query_bytes@) {
            Some(ps) => r matches Some(v) && pairs_view(v@) == ps,
            None => r is None,
        },
{
    proof {
        assert(query_bytes@.skip(0) =~= query_bytes@);
    }
    parse_pairs_at(query_bytes, 0)
}

/// The value of the first pair whose name is `key`.
pub open spec fn spec_lookup(ps: Seq<(Seq<u8>, Seq<u8>)>, key: Seq<u8>) -> Option<Seq<u8>>
    decreases ps.len(),
{
    if ps.len() == 0 {
        None
    } else if ps[0].0 == key {
        Some(ps[0].1)
    } else {
        spec_lookup(ps.drop_first(), key)
    }
}

/// Whether two byte strings hold the same bytes.
fn bytes_eq(a: &[u8], b: &[u8]) -> (r: bool)
    ensures
        r == (a@ == b@),
{
    if a.len() != b.len() {
        return false;
    }
    let mut i: usize = 0;
    while i < a.len()
        invariant
            i <= a@.len(),
            a@.len() == b@.len(),
            forall|k: int| 0 <= k < i ==> a@[k] == b@[k],
        decreases a@.len() - i,
    {
        if a[i] != b[i] {
            return false;
        }
        i = i + 1;
    }
    proof {
        assert(a@ =~= b@);
    }
    true
}

/// The value of the first pair named `key`, copied out.
fn lookup_value(pairs: &Vec<(Vec<u8>, Vec<u8>)>, key: &[u8]) -> (r: Option<Vec<u8>>)
    ensures
        match spec_lookup(pairs_view(pairs@), key@) {
            Some(v) => r matches Some(rv) && rv@ == v,
            None => r is None,
        },
{
    proof {
        assert(pairs_view(pairs@).skip(0) =~= pairs_view(pairs@));
    }
    let mut i: usize = 0;
    while i < pairs.len()
        invariant
            i <= pairs@.len(),
            spec_lookup(pairs_view(pairs@), key@) == spec_lookup(
                pairs_view(pairs@).skip(i as int),
                key@,
            ),
        decreases pairs@.len() - i,
    {
        proof {
            assert(pairs_view(pairs@).skip(i as int)[0] == (pairs@[i as int].0@, pairs@[
            i as int].1@));
            assert(pairs_view(pairs@).skip(i as int).drop_first() =~= pairs_view(pairs@).skip(
                i + 1,
            ));
        }
        if bytes_eq(pairs[i].0.as_slice(), key) {
            return Some(vstd::slice::slice_to_vec(pairs[i].1.as_slice()));
        }
        i = i + 1;
    }
    None
}

/// The `host:port` address a query reply names, when it names both the
/// `Server` and the `Port`.
pub fn extact_server_address(query_result: &Vec<(Vec<u8>, Vec<u8>)>) -> (r: Option<Vec<u8>>)
    ensures
        ({
            // "Server" / "Port"
            let server = spec_lookup(pairs_view(query_result@), seq![
                83u8, 101u8, 114u8, 118u8, 101u8, 114u8,
            ]);
            let port = spec_lookup(pairs_view(query_result@), seq![80u8, 111u8, 114u8, 116u8]);
            match (server, port) {
                (Some(s), Some(p)) => r matches Some(v) && v@ == s + seq![58u8] + p,
                _ => r is None,
            }
        }),
{
    // "Server"
    let key_server: Vec<u8> = vec![83u8, 101u8, 114u8, 118u8, 101u8, 114u8];
    // "Port"
    let key_port: Vec<u8> = vec![80u8, 111u8, 114u8, 116u8];
    proof {
        assert(key_server@ =~= seq![83u8, 101u8, 114u8, 118u8, 101u8, 114u8]);
        assert(key_port@ =~= seq![80u8, 111u8, 114u8, 116u8]);
    }
    let server = lookup_value(query_result, key_server.as_slice());
    let port = lookup_value(query_result, key_port.as_slice());
    match (server, port) {
        (Some(s), Some(p)) => {
            let mut out = s;
            let ghost s_view = out@;
            out.push(58u8);
            let mut i: usize = 0;
            while i < p.len()
                invariant
                    i <= p@.len(),
                    out@ == s_view + seq![58u8] + p@.take(i as int),
                decreases p@.len() - i,
            {
                out.push(p[i]);
                proof {
                    assert(out@ =~= s_view + seq![58u8] + p@.take(i + 1));
                }
                i = i + 1;
            }
            proof {
                assert(p@.take(p@.len() as int) =~= p@);
            }
            Some(out)
        },
        _ => None,
    }
}

} // verus!
