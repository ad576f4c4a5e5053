//! Random identifiers written in hexadecimal.
use vstd::prelude::*;
use vstd::string::*;

verus! {

/// The lower-case hexadecimal digit of `d`.
pub open spec fn hex_digit(d: nat) -> char {
    if d < 10 {
        (d + 48) as char
    } else {
        (d - 10 + 97) as char
    }
}

/// The lower-case hexadecimal representation of `n`, without leading
/// zeros, as `{:x}` writes it.
pub open spec fn hex(n: nat) -> Seq<char>
    decreases n,
{
    if n < 16 {
        seq![hex_digit(n)]
    } else {
        hex(n / 16).push(hex_digit(n % 16))
    }
}

/// The identifier made of the hexadecimal representations of the bytes,
/// in order.
pub open spec fn id_of(bytes: Seq<u8>) -> Seq<char>
    decreases bytes.len(),
{
    if bytes.len() == 0 {
        Seq::empty()
    } else {
        id_of(bytes.drop_last()) + hex(bytes.last() as nat)
    }
}

/// The text of the hexadecimal digit `d`.
fn hex_digit_str(d: u8) -> (r: &'static str)
    requires
        d < 16,
    ensures
        r@ == seq![hex_digit(d as nat)],
{
    proof {
        reveal_strlit("0");
        reveal_strlit("1");
        reveal_strlit("2");
        reveal_strlit("3");
        reveal_strlit("4");
        reveal_strlit("5");
        reveal_strlit("6");
        reveal_strlit("7");
        reveal_strlit("8");
        reveal_strlit("9");
        reveal_strlit("a");
        reveal_strlit("b");
        reveal_strlit("c");
        reveal_strlit("d");
        reveal_strlit("e");
        reveal_strlit("f");
    }
    let r = match d {
        0 => "0",
        1 => "1",
        2 => "2",
        3 => "3",
        4 => "4",
        5 => "5",
        6 => "6",
        7 => "7",
        8 => "8",
        9 => "9",
        10 => "a",
        11 => "b",
        12 => "c",
        13 => "d",
        14 => "e",
        _ => "f",
    };
    assert(r@ =~= seq![hex_digit(d as nat)]);
    r
}

/// The hexadecimal representation of a byte.
pub fn hex_of(b: u8) -> (r: String)
    ensures
        r@ == hex(b as nat),
{
    if b < 16 {
        String::from_str(hex_digit_str(b))
    } else {
        let mut r = String::from_str(hex_digit_str(b / 16));
        r.append(hex_digit_str(b % 16));
        proof {
            assert(b / 16 < 16);
            assert(hex((b / 16) as nat) == seq![hex_digit((b / 16) as nat)]);
        }
        r
    }
}

/// The identifier made of the bytes.
pub fn id_from_bytes(bytes: &Vec<u8>) -> (r: String)
    ensures
        r@ == id_of(bytes@),
{
    let mut r = String::new();
    let mut i: usize = 0;
    while i < bytes.len()
        invariant
            i <= bytes@.len(),
            r@ == id_of(bytes@.take(i as int)),
        decreases bytes@.len() - i,
    {
        let h = hex_of(bytes[i]);
        r.append(h.as_str());
        proof {
            assert(bytes@.take(i + 1).drop_last() =~= bytes@.take(i as int));
            assert(bytes@.take(i + 1).last() == bytes@[i as int]);
        }
        i = i + 1;
    }
    proof {
        assert(bytes@.take(bytes@.len() as int) =~= bytes@);
    }
    r
}

/// Calls `rand::random::<u8>()`: a byte from the thread's random number
/// generator. Nothing is promised of its value.
#[verifier::external_body]
fn random_byte() -> (r: u8) {
    rand::random::<u8>()
}

/// A random identifier of `len` random bytes (none for a length below
/// one), each written in hexadecimal.
pub fn generate_id(len: i32) -> (r: String)
    ensures
        exists|bytes: Seq<u8>|
            bytes.len() == (if len > 0 {
                len as int
            } else {
                0
            }) && r@ == id_of(bytes),
{
    let mut s = String::new();
    let ghost mut drawn: Seq<u8> = Seq::empty();
    let mut i: i32 = 0;
    while i < len
        invariant
            0 <= i,
            len > 0 ==> i <= len,
            len <= 0 ==> i == 0,
            drawn.len() == i,
            s@ == id_of(drawn),
        decreases len - i,
    {
        let x = random_byte();
        let h = hex_of(x);
        s.append(h.as_str());
        proof {
            assert(drawn.push(x).drop_last() =~= drawn);
            drawn = drawn.push(x);
        }
        i = i + 1;
    }
    proof {
        assert(s@ == id_of(drawn));
    }
    s
}

} // verus!
