//! The textual form of an identifier: thirty-two lowercase hexadecimal
//! digits in the usual 8-4-4-4-12 grouping, and the location path built
//! from it.

use vstd::prelude::*;
use vstd::string::StringExecFns;

verus! {

/// The lowercase hexadecimal digit for a value below sixteen.
pub open spec fn hex_char(d: int) -> char {
    if d == 0 {
        '0'
    } else if d == 1 {
        '1'
    } else if d == 2 {
        '2'
    } else if d == 3 {
        '3'
    } else if d == 4 {
        '4'
    } else if d == 5 {
        '5'
    } else if d == 6 {
        '6'
    } else if d == 7 {
        '7'
    } else if d == 8 {
        '8'
    } else if d == 9 {
        '9'
    } else if d == 10 {
        'a'
    } else if d == 11 {
        'b'
    } else if d == 12 {
        'c'
    } else if d == 13 {
        'd'
    } else if d == 14 {
        'e'
    } else {
        'f'
    }
}

/// The low `digits` hexadecimal digits of a value, most significant first.
pub open spec fn hex_of(v: u128, digits: nat) -> Seq<char>
    decreases digits,
{
    if digits == 0 {
        Seq::empty()
    } else {
        hex_of(v / 16, (digits - 1) as nat).push(hex_char((v % 16) as int))
    }
}

/// The textual form of an identifier: its thirty-two hexadecimal digits
/// split 8-4-4-4-12 by hyphens.
pub open spec fn uuid_text(id: u128) -> Seq<char> {
    hex_of(id / 0x1000000000000000000000000, 8) + seq!['-'] + hex_of(
        id / 0x100000000000000000000,
        4,
    ) + seq!['-'] + hex_of(id / 0x10000000000000000, 4) + seq!['-'] + hex_of(
        id / 0x1000000000000,
        4,
    ) + seq!['-'] + hex_of(id, 12)
}

/// The resource path under which a record with this identifier is reached.
pub open spec fn location_text(id: u128) -> Seq<char> {
    "/todos/"@ + uuid_text(id)
}

fn nibble_str(d: u128) -> (r: &'static str)
    requires
        d < 16,
    ensures
        r@ == seq![hex_char(d as int)],
{
    let r: &'static str = if d == 0 {
        "0"
    } else if d == 1 {
        "1"
    } else if d == 2 {
        "2"
    } else if d == 3 {
        "3"
    } else if d == 4 {
        "4"
    } else if d == 5 {
        "5"
    } else if d == 6 {
        "6"
    } else if d == 7 {
        "7"
    } else if d == 8 {
        "8"
    } else if d == 9 {
        "9"
    } else if d == 10 {
        "a"
    } else if d == 11 {
        "b"
    } else if d == 12 {
        "c"
    } else if d == 13 {
        "d"
    } else if d == 14 {
        "e"
    } else {
        "f"
    };
    proof {
        reveal_strlit("0");
        reveal_strlit("1");
        reveal_strlit("2");
        reveal_strlit("3");
        reveal_strlit("4");
        reveal_strlit("5");
        reveal_strlit("6");
        reveal_strlit("7");
        reveal_strlit("8");
        reveal_strlit("9");
        reveal_strlit("a");
        reveal_strlit("b");
        reveal_strlit("c");
        reveal_strlit("d");
        reveal_strlit("e");
        reveal_strlit("f");
        assert(r@ =~= seq![hex_char(d as int)]);
    }
    r
}

fn hex_string(v: u128, digits: usize) -> (r: String)
    ensures
        r@ == hex_of(v, digits as nat),
    decreases digits,
{
    if digits == 0 {
        let r = String::new();
        proof {
            assert(r@ =~= hex_of(v, 0));
        }
        r
    } else {
        let mut s = hex_string(v / 16, digits - 1);
        let d: u128 = v % 16;
        s.append(nibble_str(d));
        proof {
            assert(hex_of(v / 16, (digits - 1) as nat).push(hex_char((v % 16) as int)) =~= hex_of(
                v / 16,
                (digits - 1) as nat,
            ) + seq![hex_char((v % 16) as int)]);
        }
        s
    }
}

/// The hyphenated textual form of an identifier, exactly `uuid_text`.
pub fn uuid_hyphenated(id: u128) -> (r: String)
    ensures
        r@ == uuid_text(id),
{
    let mut r = hex_string(id / 0x1000000000000000000000000, 8);
    let g2 = hex_string(id / 0x100000000000000000000, 4);
    let g3 = hex_string(id / 0x10000000000000000, 4);
    let g4 = hex_string(id / 0x1000000000000, 4);
    let g5 = hex_string(id, 12);
    r.append("-");
    r.append(g2.as_str());
    r.append("-");
    r.append(g3.as_str());
    r.append("-");
    r.append(g4.as_str());
    r.append("-");
    r.append(g5.as_str());
    proof {
        reveal_strlit("-");
        assert(("-")@ =~= seq!['-']);
        assert(r@ =~= uuid_text(id));
    }
    r
}

/// The location path for a record: the todos collection path followed by the
/// hyphenated identifier.
pub fn todo_location(id: u128) -> (r: String)
    ensures
        r@ == location_text(id),
{
    let mut r = String::from_str("/todos/");
    let h = uuid_hyphenated(id);
    r.append(h.as_str());
    proof {
        assert(r@ =~= location_text(id));
    }
    r
}

} // verus!
