//! The deterministic names the processes agree on: every shared resource
//! of one pipeline instance is keyed by a numeric id, and each role
//! derives the same shared-memory name and socket paths from it, so
//! processes can restart independently and still find one another.

use vstd::prelude::*;

verus! {

use vstd::string::StringExecFns;

/// The decimal digit character for `d`, `0 <= d <= 9`.
pub open spec fn digit_char(d: int) -> char
    recommends
        0 <= d <= 9,
{
    if d == 0 {
        '0'
    } else if d == 1 {
        '1'
    } else if d == 2 {
        '2'
    } else if d == 3 {
        '3'
    } else if d == 4 {
        '4'
    } else if d == 5 {
        '5'
    } else if d == 6 {
        '6'
    } else if d == 7 {
        '7'
    } else if d == 8 {
        '8'
    } else {
        '9'
    }
}

/// The decimal digits of `n`, most significant first, without leading
/// zeroes (just `"0"` for zero).
pub open spec fn spec_decimal(n: int) -> Seq<char>
    recommends
        n >= 0,
    decreases n,
{
    if n < 10 {
        seq![digit_char(n)]
    } else {
        spec_decimal(n / 10) + seq![digit_char(n % 10)]
    }
}

/// Appends one decimal digit's character.
fn append_digit(s: &mut String, d: u32)
    requires
        d <= 9,
    ensures
        final(s)@ == old(s)@ + seq![digit_char(d as int)],
{
    let digit: &str = if d == 0 {
        "0"
    } else if d == 1 {
        "1"
    } else if d == 2 {
        "2"
    } else if d == 3 {
        "3"
    } else if d == 4 {
        "4"
    } else if d == 5 {
        "5"
    } else if d == 6 {
        "6"
    } else if d == 7 {
        "7"
    } else if d == 8 {
        "8"
    } else {
        "9"
    };
    proof {
        reveal_strlit("0");
        reveal_strlit("1");
        reveal_strlit("2");
        reveal_strlit("3");
        reveal_strlit("4");
        reveal_strlit("5");
        reveal_strlit("6");
        reveal_strlit("7");
        reveal_strlit("8");
        reveal_strlit("9");
        assert(digit@ =~= seq![digit_char(d as int)]);
    }
    s.append(digit);
}

/// Appends the decimal digits of `n`, most significant first.
fn append_decimal(s: &mut String, n: u32)
    ensures
        final(s)@ == old(s)@ + spec_decimal(n as int),
    decreases n,
{
    if n >= 10 {
        append_decimal(s, n / 10);
    }
    append_digit(s, n % 10);
    proof {
        if n < 10 {
            assert(s@ =~= old(s)@ + spec_decimal(n as int));
        } else {
            assert(s@ =~= old(s)@ + spec_decimal(n as int));
        }
    }
}

/// The shared-memory object name of instance `id`.
pub open spec fn spec_shared_memory_name(id: int) -> Seq<char> {
    "/tppocr_"@ + spec_decimal(id)
}

/// The name under which instance `id`'s segment is created and found,
/// the same in every process that attaches to it.
pub fn shared_memory_name(id: u32) -> (r: String)
    ensures
        r@ == spec_shared_memory_name(id as int),
{
    let mut s = String::from_str("/tppocr_");
    append_decimal(&mut s, id);
    s
}

/// The server's well-known socket path for channel `id`.
pub open spec fn spec_server_socket_path(id: int) -> Seq<char> {
    "/tmp/tppocr_"@ + spec_decimal(id) + ".socket"@
}

pub fn server_socket_path(id: u32) -> (r: String)
    ensures
        r@ == spec_server_socket_path(id as int),
{
    let mut s = String::from_str("/tmp/tppocr_");
    append_decimal(&mut s, id);
    s.append(".socket");
    s
}

/// The client's own socket path for channel `id`, distinct from the
/// server's so replies route back to the caller.
pub open spec fn spec_client_socket_path(id: int) -> Seq<char> {
    "/tmp/tppocr_client-"@ + spec_decimal(id) + ".socket"@
}

pub fn client_socket_path(id: u32) -> (r: String)
    ensures
        r@ == spec_client_socket_path(id as int),
{
    let mut s = String::from_str("/tmp/tppocr_client-");
    append_decimal(&mut s, id);
    s.append(".socket");
    s
}

} // verus!
