//! A bridge as it is known once it has told of itself.

use crate::models::Config;
use url::Url;
use vstd::prelude::*;
use vstd::string::*;
use vstd::utf8::encode_utf8;

verus! {

/// The oldest software version of a bridge that is supported.
pub const VERSION_MIN: &'static str = "1948086000";

/// Why a host is no bridge to work with.
#[derive(Debug, Clone, Copy, Hash, PartialEq, Eq)]
pub enum Error {
    Connection,
    NotHue,
    UnknownModel,
}

/// The hardware generation of a bridge.
#[derive(Debug, Clone, Copy, Hash, PartialEq, Eq)]
pub enum Model {
    BSB001,
    BSB002,
    Unknown,
}

/// A bridge: what it is, where it is, and whether its software is recent
/// enough. The address is the four numbers of its IPv4 address.
#[derive(Debug, Clone, Hash, PartialEq, Eq)]
pub struct Bridge {
    pub id: String,
    pub model: Model,
    pub version: String,
    pub address: [u8; 4],
    pub supported: bool,
}

/// `a` comes before `b` or equals it in the order of a dictionary, byte by
/// byte: `a` is the beginning of `b`, or at the first place where they differ
/// `a` has the smaller byte.
pub open spec fn lex_le(a: Seq<u8>, b: Seq<u8>) -> bool {
    ||| a.len() <= b.len() && a == b.subrange(0, a.len() as int)
    ||| exists|i: int|
        0 <= i < a.len() && i < b.len() && a.subrange(0, i) == b.subrange(0, i) && a[i] < b[i]
}

/// Whether `a` comes before `b` or equals it in the order of a dictionary.
pub fn bytes_le(a: &[u8], b: &[u8]) -> (r: bool)
    ensures
        r == lex_le(a@, b@),
{
    let mut i: usize = 0;
    while i < a.len() && i < b.len()
        invariant
            i <= a.len(),
            i <= b.len(),
            a@.subrange(0, i as int) == b@.subrange(0, i as int),
        decreases a.len() - i,
    {
        if a[i] != b[i] {
            proof {
                let smaller = a[i as int] < b[i as int];
                if smaller {
                    assert(0 <= i < a@.len() && i < b@.len() && a@.subrange(0, i as int)
                        == b@.subrange(0, i as int) && a@[i as int] < b@[i as int]);
                } else {
                    if a@.len() <= b@.len() && a@ == b@.subrange(0, a@.len() as int) {
                        assert(a@[i as int] == b@.subrange(0, a@.len() as int)[i as int]);
                    }
                    assert forall|j: int|
                        0 <= j < a@.len() && j < b@.len() && a@.subrange(0, j) == b@.subrange(
                            0,
                            j,
                        ) implies !(a@[j] < b@[j]) by {
                        if j > i {
                            assert(a@.subrange(0, j)[i as int] == b@.subrange(0, j)[i as int]);
                        } else if j < i {
                            assert(a@.subrange(0, i as int)[j] == b@.subrange(0, i as int)[j]);
                        }
                    }
                }
            }
            return a[i] < b[i];
        }
        proof {
            assert(a@.subrange(0, i + 1) =~= a@.subrange(0, i as int).push(a@[i as int]));
            assert(b@.subrange(0, i + 1) =~= b@.subrange(0, i as int).push(b@[i as int]));
        }
        i += 1;
    }
    proof {
        if i == a.len() {
            assert(a@ =~= a@.subrange(0, i as int));
        } else {
            assert(b@ =~= b@.subrange(0, i as int));
            assert forall|j: int|
                0 <= j < a@.len() && j < b@.len() && a@.subrange(0, j) == b@.subrange(
                    0,
                    j,
                ) implies !(a@[j] < b@[j]) by {
                assert(a@.subrange(0, i as int)[j] == b@.subrange(0, i as int)[j]);
            }
        }
    }
    i == a.len()
}

impl Model {
    /// The model that the identifier `value` names.
    pub fn from(value: &String) -> (r: Model)
        ensures
            value@ == "BSB001"@ ==> r == Model::BSB001,
            value@ == "BSB002"@ ==> r == Model::BSB002,
            value@ != "BSB001"@ && value@ != "BSB002"@ ==> r == Model::Unknown,
    {
        proof {
            reveal_strlit("BSB001");
            reveal_strlit("BSB002");
            assert("BSB001"@[5] != "BSB002"@[5]);
        }
        if *value == "BSB001".to_owned() {
            Model::BSB001
        } else if *value == "BSB002".to_owned() {
            Model::BSB002
        } else {
            Model::Unknown
        }
    }
}

/// The decimal digit `d` as a character.
pub open spec fn digit(d: int) -> char {
    if d == 0 {
        '0'
    } else if d == 1 {
        '1'
    } else if d == 2 {
        '2'
    } else if d == 3 {
        '3'
    } else if d == 4 {
        '4'
    } else if d == 5 {
        '5'
    } else if d == 6 {
        '6'
    } else if d == 7 {
        '7'
    } else if d == 8 {
        '8'
    } else {
        '9'
    }
}

/// A number below 1000 in decimal digits, without leading zeros.
pub open spec fn decimal(n: int) -> Seq<char> {
    if n < 10 {
        seq![digit(n)]
    } else if n < 100 {
        seq![digit(n / 10), digit(n % 10)]
    } else {
        seq![digit(n / 100), digit(n / 10 % 10), digit(n % 10)]
    }
}

/// An IPv4 address as it is written: its four numbers in decimal with dots
/// between.
pub open spec fn dotted(address: [u8; 4]) -> Seq<char> {
    decimal(address[0] as int) + seq!['.'] + decimal(address[1] as int) + seq!['.'] + decimal(
        address[2] as int,
    ) + seq!['.'] + decimal(address[3] as int)
}

/// The `Url` of the url crate, which is carried through as it is.
#[verifier::external_type_specification]
#[verifier::external_body]
pub struct ExUrl(url::Url);

/// Whether `Url::parse` of the url crate makes a URL of `input`.
pub uninterp spec fn url_parses(input: Seq<char>) -> bool;

/// Calls `Url::parse` on `input`. Nothing is claimed of it but that it is a
/// function of its argument: the answer is the URL, or `None` where `input` is
/// refused.
#[verifier::external_body]
fn parse_url(input: &str) -> (r: Option<Url>)
    ensures
        r is Some <==> url_parses(input@),
{
    match Url::parse(input) {
        Ok(url) => Some(url),
        Err(_) => None,
    }
}

/// The text of the URL of `path` on the bridge at `address`.
pub open spec fn url_text(address: [u8; 4], path: Seq<char>) -> Seq<char> {
    "https://"@ + dotted(address) + seq!['/'] + path
}

/// The decimal digit `d` as a text.
fn digit_text(d: u8) -> (r: &'static str)
    requires
        d < 10,
    ensures
        r@ == seq![digit(d as int)],
{
    proof {
        reveal_strlit("0");
        reveal_strlit("1");
        reveal_strlit("2");
        reveal_strlit("3");
        reveal_strlit("4");
        reveal_strlit("5");
        reveal_strlit("6");
        reveal_strlit("7");
        reveal_strlit("8");
        reveal_strlit("9");
    }
    let r = match d {
        0 => "0",
        1 => "1",
        2 => "2",
        3 => "3",
        4 => "4",
        5 => "5",
        6 => "6",
        7 => "7",
        8 => "8",
        _ => "9",
    };
    assert(r@ =~= seq![digit(d as int)]);
    r
}

/// Appends `n` in decimal digits.
fn push_decimal(text: &mut String, n: u8)
    ensures
        final(text)@ == old(text)@ + decimal(n as int),
{
    if n >= 100 {
        text.append(digit_text(n / 100));
    }
    if n >= 10 {
        text.append(digit_text(n / 10 % 10));
    }
    text.append(digit_text(n % 10));
    assert(text@ =~= old(text)@ + decimal(n as int));
}

/// The address as it is written.
pub fn address_text(address: [u8; 4]) -> (r: String)
    ensures
        r@ == dotted(address),
{
    proof {
        reveal_strlit(".");
    }
    let mut text = String::new();
    push_decimal(&mut text, address[0]);
    text.append(".");
    push_decimal(&mut text, address[1]);
    text.append(".");
    push_decimal(&mut text, address[2]);
    text.append(".");
    push_decimal(&mut text, address[3]);
    assert(text@ =~= dotted(address));
    text
}

/// The text of the URL of `path` on the host at `address`.
pub fn url_text_of(address: [u8; 4], path: &str) -> (r: String)
    ensures
        r@ == url_text(address, path@),
{
    proof {
        reveal_strlit("/");
    }
    let mut text = "https://".to_owned();
    text.append(address_text(address).as_str());
    text.append("/");
    text.append(path);
    assert(text@ =~= url_text(address, path@));
    text
}

/// The URL of `path` on the host at `address`, where its text is one.
pub fn url_of(address: [u8; 4], path: &str) -> (r: Option<Url>)
    ensures
        r is Some <==> url_parses(url_text(address, path@)),
{
    parse_url(url_text_of(address, path).as_str())
}

impl Bridge {
    /// The address of the bridge as it is written.
    pub fn address_text(&self) -> (r: String)
        ensures
            r@ == dotted(self.address),
    {
        address_text(self.address)
    }

    /// The text of the URL of `path` on the bridge.
    pub fn url_text(&self, path: &str) -> (r: String)
        ensures
            r@ == url_text(self.address, path@),
    {
        url_text_of(self.address, path)
    }

    /// The URL of `path` on the bridge, where its text is one.
    pub fn url(&self, path: &str) -> (r: Option<Url>)
        ensures
            r is Some <==> url_parses(url_text(self.address, path@)),
    {
        url_of(self.address, path)
    }

    /// This is the bridge at `address` that tells `config` of itself. It is
    /// supported where its software version does not come before `VERSION_MIN`
    /// in the order of a dictionary.
    pub open spec fn describes(self, address: [u8; 4], config: Config) -> bool {
        &&& self.id@ == config.bridgeid@
        &&& self.version@ == config.swversion@
        &&& self.address == address
        &&& self.supported == lex_le(VERSION_MIN.spec_bytes(), encode_utf8(config.swversion@))
        &&& config.modelid@ == "BSB001"@ ==> self.model == Model::BSB001
        &&& config.modelid@ == "BSB002"@ ==> self.model == Model::BSB002
        &&& config.modelid@ != "BSB001"@ && config.modelid@ != "BSB002"@ ==> self.model
            == Model::Unknown
    }

    /// The bridge at the address `data.0` that tells `data.1` of itself.
    pub fn from(data: ([u8; 4], Config)) -> (r: Bridge)
        ensures
            r.describes(data.0, data.1),
    {
        let (address, config) = data;
        let model = Model::from(&config.modelid);
        let supported = bytes_le(VERSION_MIN.as_bytes(), config.swversion.as_str().as_bytes());
        let version = config.swversion.clone();
        Bridge { id: config.bridgeid, model, version, address, supported }
    }
}

} // verus!
