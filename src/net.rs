//! IPv4 networks and addresses.
use vstd::prelude::*;
use crate::text::{dec_digits, dec_text, digit_byte};

verus! {

/// An IPv4 network: an address and a netmask, both in host order.
#[derive(Clone, Copy, Debug, PartialEq, Eq, Structural)]
pub struct Ipv4Net {
    pub addr: u32,
    pub mask: u32,
}

impl Ipv4Net {
    /// Whether `ip` lies in this network.
    pub open spec fn spec_contains(self, ip: u32) -> bool {
        ip & self.mask == self.addr & self.mask
    }

    /// Tests whether `ip` lies in this network: its masked bits equal the
    /// masked network address.
    pub fn contains(&self, ip: u32) -> (r: bool)
        ensures
            r == self.spec_contains(ip),
    {
        (ip & self.mask) == (self.addr & self.mask)
    }
}

/// The octets of an address, most significant first.
pub open spec fn octet(a: u32, k: int) -> nat {
    if k == 0 {
        (a / 0x100_0000) as nat
    } else if k == 1 {
        ((a / 0x1_0000) % 256) as nat
    } else if k == 2 {
        ((a / 256) % 256) as nat
    } else {
        (a % 256) as nat
    }
}

/// The dotted-quad text of an address, as `Ipv4Addr` writes and reads it:
/// four decimal octets without leading zeros.
pub open spec fn ipv4_text(a: u32) -> Seq<char> {
    dec_text(octet(a, 0)) + seq!['.'] + dec_text(octet(a, 1)) + seq!['.'] + dec_text(octet(a, 2))
        + seq!['.'] + dec_text(octet(a, 3))
}

/// Whether `s` holds the decimal text of `v` at `pos`, followed by a dot or the end.
pub open spec fn octet_at(s: Seq<char>, pos: int, v: nat) -> bool {
    let d = dec_text(v);
    &&& 0 <= pos
    &&& pos + d.len() <= s.len()
    &&& s.subrange(pos, pos + d.len()) == d
    &&& (pos + d.len() == s.len() || s[pos + d.len()] == '.')
}

/// The ASCII digit character for `d`, which is below ten.
pub open spec fn digit_char(d: int) -> char {
    digit_byte(d) as char
}

/// Whether `c` is an ASCII digit.
pub open spec fn is_digit_char(c: char) -> bool {
    '0' <= c <= '9'
}

proof fn lemma_octet_text(v: nat)
    requires
        v < 256,
    ensures
        v < 10 ==> dec_text(v) == seq![digit_char(v as int)],
        10 <= v < 100 ==> dec_text(v) == seq![digit_char((v / 10) as int), digit_char((v % 10) as int)],
        100 <= v ==> dec_text(v) == seq![
            digit_char((v / 100) as int),
            digit_char(((v / 10) % 10) as int),
            digit_char((v % 10) as int),
        ],
        1 <= dec_text(v).len() <= 3,
        dec_text(v)[0] == '0' ==> v == 0,
        forall|i: int| 0 <= i < dec_text(v).len() ==> is_digit_char(#[trigger] dec_text(v)[i]),
{
    reveal_with_fuel(dec_digits, 3);
    if v < 10 {
        assert(dec_text(v) =~= seq![digit_char(v as int)]);
    } else if v < 100 {
        assert(dec_text(v) =~= seq![digit_char((v / 10) as int), digit_char((v % 10) as int)]);
    } else {
        assert((v / 10) / 10 == v / 100);
        assert(dec_text(v) =~= seq![
            digit_char((v / 100) as int),
            digit_char(((v / 10) % 10) as int),
            digit_char((v % 10) as int),
        ]);
    }
}

/// Reads one decimal octet of `s` at `pos`.
#[verifier::rlimit(40)]
fn read_octet(s: &str, len: usize, pos: usize) -> (r: Option<(u32, usize)>)
    requires
        len == s@.len(),
        pos <= len,
    ensures
        r matches Some((v, e)) ==> v < 256 && pos < e <= len && s@.subrange(pos as int, e as int)
            == dec_text(v as nat),
        forall|v: nat|
            v < 256 && #[trigger] octet_at(s@, pos as int, v) ==> r == Some(
                (v as u32, (pos + dec_text(v).len()) as usize),
            ),
{
    if pos >= len {
        proof {
            assert forall|v: nat| v < 256 && #[trigger] octet_at(s@, pos as int, v) implies false by {
                lemma_octet_text(v);
            }
        }
        return None;
    }
    let c0 = s.get_char(pos);
    if !(c0 >= '0' && c0 <= '9') {
        proof {
            assert forall|v: nat| v < 256 && #[trigger] octet_at(s@, pos as int, v) implies false by {
                lemma_octet_text(v);
                assert(s@[pos as int] == s@.subrange(pos as int, pos + dec_text(v).len())[0]);
            }
        }
        return None;
    }
    let d0 = (c0 as u32) - 48;
    if d0 == 0 {
        proof {
            lemma_octet_text(0);
            assert(s@.subrange(pos as int, pos + 1) =~= dec_text(0));
            assert forall|v: nat| v < 256 && #[trigger] octet_at(s@, pos as int, v) implies v == 0 by {
                lemma_octet_text(v);
                assert(s@[pos as int] == s@.subrange(pos as int, pos + dec_text(v).len())[0]);
            }
        }
        return Some((0, pos + 1));
    }
    let mut v: u32 = d0;
    let mut e: usize = pos + 1;
    if e < len {
        let c1 = s.get_char(e);
        if c1 >= '0' && c1 <= '9' {
            v = v * 10 + ((c1 as u32) - 48);
            e = e + 1;
            if e < len {
                let c2 = s.get_char(e);
                if c2 >= '0' && c2 <= '9' {
                    v = v * 10 + ((c2 as u32) - 48);
                    e = e + 1;
                }
            }
        }
    }
    if v > 255 {
        proof {
            assert forall|w: nat| w < 256 && #[trigger] octet_at(s@, pos as int, w) implies false by {
                lemma_octet_text(w);
                let d = dec_text(w);
                assert(forall|i: int| 0 <= i < d.len() ==> s@[pos + i] == #[trigger] d[i]) by {
                    assert forall|i: int| 0 <= i < d.len() implies s@[pos + i] == #[trigger] d[i] by {
                        assert(s@.subrange(pos as int, pos + d.len())[i] == s@[pos + i]);
                    }
                }
            }
        }
        return None;
    }
    proof {
        lemma_octet_text(v as nat);
        assert(s@.subrange(pos as int, e as int) =~= dec_text(v as nat));
        assert forall|w: nat| w < 256 && #[trigger] octet_at(s@, pos as int, w) implies w == v
            && dec_text(w).len() == e - pos by {
            lemma_octet_text(w);
            let d = dec_text(w);
            assert forall|i: int| 0 <= i < d.len() implies s@[pos + i] == #[trigger] d[i] by {
                assert(s@.subrange(pos as int, pos + d.len())[i] == s@[pos + i]);
            }
        }
    }
    Some((v, e))
}


/// Where the octets of `b` stand in a text `s`, as they do in `ipv4_text(b)`.
pub open spec fn dotted_layout(s: Seq<char>, b: u32) -> bool {
    let l0 = dec_text(octet(b, 0)).len() as int;
    let l1 = dec_text(octet(b, 1)).len() as int;
    let l2 = dec_text(octet(b, 2)).len() as int;
    let l3 = dec_text(octet(b, 3)).len() as int;
    &&& octet_at(s, 0, octet(b, 0))
    &&& l0 < s.len() && s[l0] == '.'
    &&& octet_at(s, l0 + 1, octet(b, 1))
    &&& l0 + 1 + l1 < s.len() && s[l0 + 1 + l1] == '.'
    &&& octet_at(s, l0 + l1 + 2, octet(b, 2))
    &&& l0 + l1 + 2 + l2 < s.len() && s[l0 + l1 + 2 + l2] == '.'
    &&& octet_at(s, l0 + l1 + l2 + 3, octet(b, 3))
    &&& s.len() == l0 + l1 + l2 + l3 + 3
    &&& octet(b, 0) < 256
    &&& octet(b, 1) < 256
    &&& octet(b, 2) < 256
    &&& octet(b, 3) < 256
}

proof fn lemma_text_layout(b: u32)
    ensures
        dotted_layout(ipv4_text(b), b),
{
    let t = ipv4_text(b);
    let d0 = dec_text(octet(b, 0));
    let d1 = dec_text(octet(b, 1));
    let d2 = dec_text(octet(b, 2));
    let d3 = dec_text(octet(b, 3));
    let l0 = d0.len() as int;
    let l1 = d1.len() as int;
    let l2 = d2.len() as int;
    assert(b / 0x100_0000 < 256);
    lemma_octet_text(octet(b, 0));
    lemma_octet_text(octet(b, 1));
    lemma_octet_text(octet(b, 2));
    lemma_octet_text(octet(b, 3));
    assert(t.subrange(0, l0) =~= d0);
    assert(t.subrange(l0 + 1, l0 + 1 + l1) =~= d1);
    assert(t.subrange(l0 + l1 + 2, l0 + l1 + 2 + l2) =~= d2);
    assert(t.subrange(l0 + l1 + l2 + 3, t.len() as int) =~= d3);
}

/// The octets of an address assembled from four octets.
proof fn lemma_assemble(o0: nat, o1: nat, o2: nat, o3: nat)
    requires
        o0 < 256,
        o1 < 256,
        o2 < 256,
        o3 < 256,
    ensures
        ({
            let a = (o0 * 0x100_0000 + o1 * 0x1_0000 + o2 * 256 + o3) as u32;
            &&& o0 * 0x100_0000 + o1 * 0x1_0000 + o2 * 256 + o3 <= u32::MAX
            &&& octet(a, 0) == o0
            &&& octet(a, 1) == o1
            &&& octet(a, 2) == o2
            &&& octet(a, 3) == o3
        }),
{
    let x = o0 * 0x100_0000 + o1 * 0x1_0000 + o2 * 256 + o3;
    assert(x <= u32::MAX) by (nonlinear_arith)
        requires
            o0 < 256,
            o1 < 256,
            o2 < 256,
            o3 < 256,
            x == o0 * 0x100_0000 + o1 * 0x1_0000 + o2 * 256 + o3,
    ;
    vstd::arithmetic::div_mod::lemma_fundamental_div_mod_converse(
        x as int,
        0x100_0000,
        o0 as int,
        (o1 * 0x1_0000 + o2 * 256 + o3) as int,
    );
    vstd::arithmetic::div_mod::lemma_fundamental_div_mod_converse(
        x as int,
        0x1_0000,
        (o0 * 256 + o1) as int,
        (o2 * 256 + o3) as int,
    );
    vstd::arithmetic::div_mod::lemma_fundamental_div_mod_converse(
        (o0 * 256 + o1) as int,
        256,
        o0 as int,
        o1 as int,
    );
    vstd::arithmetic::div_mod::lemma_fundamental_div_mod_converse(
        x as int,
        256,
        (o0 * 0x1_0000 + o1 * 256 + o2) as int,
        o3 as int,
    );
    vstd::arithmetic::div_mod::lemma_fundamental_div_mod_converse(
        (o0 * 0x1_0000 + o1 * 256 + o2) as int,
        256,
        (o0 * 256 + o1) as int,
        o2 as int,
    );
}

/// An address is the sum of its octets, each at its weight.
proof fn lemma_octets_compose(b: u32)
    ensures
        b == octet(b, 0) * 0x100_0000 + octet(b, 1) * 0x1_0000 + octet(b, 2) * 256 + octet(b, 3),
{
    assert(b == (b / 0x100_0000) * 0x100_0000 + ((b / 0x1_0000) % 256) * 0x1_0000 + ((b / 256)
        % 256) * 256 + b % 256) by (bit_vector);
}

/// Reads one decimal octet of `s` at `pos` and the dot after it; the
/// position after the dot comes back with the octet.
fn read_octet_dot(s: &str, len: usize, pos: usize) -> (r: Option<(u32, usize)>)
    requires
        len == s@.len(),
        pos <= len,
    ensures
        r matches Some((v, e)) ==> v < 256 && pos < e <= len && s@.subrange(pos as int, e - 1)
            == dec_text(v as nat) && s@[e - 1] == '.',
        forall|v: nat|
            v < 256 && #[trigger] octet_at(s@, pos as int, v) && pos + dec_text(v).len() < s@.len()
                && s@[pos + dec_text(v).len()] == '.' ==> r == Some(
                (v as u32, (pos + dec_text(v).len() + 1) as usize),
            ),
{
    match read_octet(s, len, pos) {
        Some((v, e)) => {
            if e < len && s.get_char(e) == '.' {
                Some((v, e + 1))
            } else {
                proof {
                    assert forall|w: nat|
                        w < 256 && #[trigger] octet_at(s@, pos as int, w) && pos + dec_text(w).len()
                            < s@.len() implies s@[pos + dec_text(w).len()] != '.' by {
                        lemma_octet_text(w);
                    }
                }
                None
            }
        },
        None => None,
    }
}

/// The text of four octets joined by dots.
pub open spec fn quad_text(o0: nat, o1: nat, o2: nat, o3: nat) -> Seq<char> {
    dec_text(o0) + seq!['.'] + dec_text(o1) + seq!['.'] + dec_text(o2) + seq!['.'] + dec_text(o3)
}

/// Reads four dotted decimal octets that make up the whole of `s`.
fn read_quad(s: &str) -> (r: Option<(u32, u32, u32, u32)>)
    ensures
        r matches Some((o0, o1, o2, o3)) ==> o0 < 256 && o1 < 256 && o2 < 256 && o3 < 256 && s@
            == quad_text(o0 as nat, o1 as nat, o2 as nat, o3 as nat),
        forall|b: u32|
            s@ == #[trigger] ipv4_text(b) ==> r == Some(
                (octet(b, 0) as u32, octet(b, 1) as u32, octet(b, 2) as u32, octet(b, 3) as u32),
            ),
{
    proof {
        assert forall|b: u32| s@ == #[trigger] ipv4_text(b) implies dotted_layout(s@, b) by {
            lemma_text_layout(b);
        }
    }
    let len = s.unicode_len();
    let (o0, next1) = match read_octet_dot(s, len, 0) {
        Some(x) => x,
        None => return None,
    };
    let (o1, next2) = match read_octet_dot(s, len, next1) {
        Some(x) => x,
        None => return None,
    };
    let (o2, next3) = match read_octet_dot(s, len, next2) {
        Some(x) => x,
        None => return None,
    };
    let (o3, e) = match read_octet(s, len, next3) {
        Some(x) => x,
        None => return None,
    };
    if e != len {
        return None;
    }
    proof {
        assert(s@ =~= s@.subrange(0, next1 - 1) + seq!['.'] + s@.subrange(next1 as int, next2 - 1)
            + seq!['.'] + s@.subrange(next2 as int, next3 - 1) + seq!['.'] + s@.subrange(
            next3 as int,
            e as int,
        ));
    }
    Some((o0, o1, o2, o3))
}

/// Reads an IPv4 address literal, as `Ipv4Addr::from_str` accepts it: four
/// decimal octets separated by dots, each without leading zeros.
pub fn parse_ipv4(s: &str) -> (r: Option<u32>)
    ensures
        r matches Some(a) ==> s@ == ipv4_text(a),
        r is None ==> forall|a: u32| s@ != #[trigger] ipv4_text(a),
        forall|a: u32| s@ == #[trigger] ipv4_text(a) ==> r == Some(a),
{
    let (o0, o1, o2, o3) = match read_quad(s) {
        Some(x) => x,
        None => return None,
    };
    proof {
        lemma_assemble(o0 as nat, o1 as nat, o2 as nat, o3 as nat);
        assert forall|b: u32| s@ == #[trigger] ipv4_text(b) implies b == o0 * 0x100_0000 + o1
            * 0x1_0000 + o2 * 256 + o3 by {
            lemma_octets_compose(b);
        }
    }
    let a: u32 = o0 * 0x100_0000 + o1 * 0x1_0000 + o2 * 256 + o3;
    Some(a)
}

} // verus!
