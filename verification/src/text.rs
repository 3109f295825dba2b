//! Text made from bytes.
use vstd::prelude::*;
use vstd::string::StringExecFns;

verus! {

/// The characters of an optional text.
pub open spec fn chars(text: Option<String>) -> Option<Seq<char>> {
    match text {
        Some(text) => Some(text@),
        None => None,
    }
}

/// The hexadecimal digit of a number below 16.
pub open spec fn digit(n: int) -> char {
    if n < 10 {
        ('0' as int + n) as char
    } else {
        ('a' as int + n - 10) as char
    }
}

/// Bytes in hexadecimal: two digits for each.
pub open spec fn hex(bytes: Seq<u8>) -> Seq<char> {
    Seq::new(
        2 * bytes.len(),
        |i: int|
            if i % 2 == 0 {
                digit(bytes[i / 2] as int / 16)
            } else {
                digit(bytes[i / 2] as int % 16)
            },
    )
}

/// The hexadecimal digit of a number below 16.
fn hex_digit(n: u8) -> (text: &'static str)
    requires
        n < 16,
    ensures
        text@ == seq![digit(n as int)],
{
    proof {
        reveal_strlit("0");
        reveal_strlit("1");
        reveal_strlit("2");
        reveal_strlit("3");
        reveal_strlit("4");
        reveal_strlit("5");
        reveal_strlit("6");
        reveal_strlit("7");
        reveal_strlit("8");
        reveal_strlit("9");
        reveal_strlit("a");
        reveal_strlit("b");
        reveal_strlit("c");
        reveal_strlit("d");
        reveal_strlit("e");
        reveal_strlit("f");
    }
    let text = match n {
        0 => "0",
        1 => "1",
        2 => "2",
        3 => "3",
        4 => "4",
        5 => "5",
        6 => "6",
        7 => "7",
        8 => "8",
        9 => "9",
        10 => "a",
        11 => "b",
        12 => "c",
        13 => "d",
        14 => "e",
        _ => "f",
    };
    assert(text@ =~= seq![digit(n as int)]);
    text
}

/// Writes bytes in hexadecimal.
pub fn hex_dump(buf: &[u8]) -> (text: String)
    ensures
        text@ == hex(buf@),
{
    let mut text = String::new();
    let mut i: usize = 0;
    while i < buf.len()
        invariant
            i <= buf@.len(),
            text@ == hex(buf@.take(i as int)),
        decreases buf@.len() - i,
    {
        text.append(hex_digit(buf[i] / 16));
        text.append(hex_digit(buf[i] % 16));
        assert(text@ =~= hex(buf@.take(i + 1)));
        i = i + 1;
    }
    assert(buf@.take(buf@.len() as int) =~= buf@);
    text
}

/// The text that `String::from_utf8_lossy` makes of bytes.
pub uninterp spec fn utf8_lossy(bytes: Seq<u8>) -> Seq<char>;

/// Calls `String::from_utf8_lossy`. The text depends on the bytes alone, and is what they encode if
/// they are valid UTF-8.
#[verifier::external_body]
fn from_utf8_lossy(bytes: &[u8]) -> (text: String)
    ensures
        text@ == utf8_lossy(bytes@),
        vstd::utf8::valid_utf8(bytes@) ==> text@ == vstd::utf8::decode_utf8(bytes@),
{
    String::from_utf8_lossy(bytes).to_string()
}

/// Calls `std::str::from_utf8`. There is a text if and only if the bytes are valid UTF-8, and it is
/// what they encode.
#[verifier::external_body]
pub(crate) fn from_utf8(bytes: &[u8]) -> (text: Option<&str>)
    ensures
        match text {
            Some(text) => vstd::utf8::valid_utf8(bytes@) && text@ == vstd::utf8::decode_utf8(
                bytes@,
            ),
            None => !vstd::utf8::valid_utf8(bytes@),
        },
{
    std::str::from_utf8(bytes).ok()
}

/// A header of a request or a response.
#[derive(Debug, PartialEq, Eq)]
pub struct Header {
    pub name: Vec<u8>,
    pub value: Vec<u8>,
}

/// The names and values of headers as text.
pub fn hdrs_to_strings(hdrs: &Vec<Header>) -> (texts: Vec<(String, String)>)
    ensures
        texts@.len() == hdrs@.len(),
        forall|i: int|
            0 <= i < hdrs@.len() ==> {
                &&& (#[trigger] texts@[i]).0@ == utf8_lossy(hdrs@[i].name@)
                &&& texts@[i].1@ == utf8_lossy(hdrs@[i].value@)
                &&& vstd::utf8::valid_utf8(hdrs@[i].name@) ==> texts@[i].0@
                    == vstd::utf8::decode_utf8(hdrs@[i].name@)
                &&& vstd::utf8::valid_utf8(hdrs@[i].value@) ==> texts@[i].1@
                    == vstd::utf8::decode_utf8(hdrs@[i].value@)
            },
{
    let mut texts: Vec<(String, String)> = Vec::new();
    let mut i: usize = 0;
    while i < hdrs.len()
        invariant
            i <= hdrs@.len(),
            texts@.len() == i,
            forall|j: int|
                0 <= j < i ==> {
                    &&& (#[trigger] texts@[j]).0@ == utf8_lossy(hdrs@[j].name@)
                    &&& texts@[j].1@ == utf8_lossy(hdrs@[j].value@)
                    &&& vstd::utf8::valid_utf8(hdrs@[j].name@) ==> texts@[j].0@
                        == vstd::utf8::decode_utf8(hdrs@[j].name@)
                    &&& vstd::utf8::valid_utf8(hdrs@[j].value@) ==> texts@[j].1@
                        == vstd::utf8::decode_utf8(hdrs@[j].value@)
                },
        decreases hdrs@.len() - i,
    {
        let name = from_utf8_lossy(hdrs[i].name.as_slice());
        let value = from_utf8_lossy(hdrs[i].value.as_slice());
        texts.push((name, value));
        i = i + 1;
    }
    texts
}

} // verus!
