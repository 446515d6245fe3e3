//! The name under which an application registers with a bridge.

use regex::Regex;
use vstd::prelude::*;
use vstd::string::*;

verus! {

/// What an application name has to match.
pub const APPLICATION_NAME_REGEX: &'static str = r"^\w{1,20}$";

/// What a device name has to match.
pub const DEVICE_NAME_REGEX: &'static str = r"^\w{1,19}$";

/// What a device type in one piece has to match; its two groups are the
/// application name and the device name.
pub const DEVICE_TYPE_REGEX: &'static str = r"^(\w{1,20})#(\w{1,19})$";

/// Why a device type was refused.
#[derive(Debug, Clone, Copy, PartialEq, Eq)]
pub enum Error {
    /// The text is not an application name and a device name with `#` between.
    Invalid,
    /// The application name is not 1 to 20 word characters.
    ApplicationName,
    /// The device name is not 1 to 19 word characters.
    DeviceName,
}

/// The `devicetype` of the bridge's interface: who asks for authorization.
#[derive(Debug, Clone, PartialEq, Eq)]
pub struct DeviceType {
    pub application_name: String,
    pub device_name: String,
}

/// Whether `Regex::new` of the regex crate makes a regular expression of
/// `pattern`.
pub uninterp spec fn regex_compiles(pattern: Seq<char>) -> bool;

/// What `Regex::is_match` says of `haystack`, for the regular expression that
/// `Regex::new` makes of `pattern`.
pub uninterp spec fn regex_is_match(pattern: Seq<char>, haystack: Seq<char>) -> bool;

/// What `Regex::captures` finds in `haystack`, for the regular expression that
/// `Regex::new` makes of `pattern`: nothing, or the text of every group in
/// the order of `Captures::iter`, the whole match first, with `None` for a
/// group that took no part.
pub uninterp spec fn regex_captures(pattern: Seq<char>, haystack: Seq<char>) -> Option<
    Seq<Option<Seq<char>>>,
>;

/// The texts of the groups as sequences of characters.
pub open spec fn groups_view(groups: Vec<Option<String>>) -> Seq<Option<Seq<char>>> {
    Seq::new(
        groups@.len(),
        |i: int|
            match groups@[i] {
                Some(text) => Some(text@),
                None => None,
            },
    )
}

/// Calls `Regex::new` on `pattern` and `Regex::is_match` of the result on
/// `haystack`. Nothing is claimed of either but that they are functions of
/// their arguments: the answer is `None` where the pattern is refused, and
/// otherwise what `is_match` said.
#[verifier::external_body]
fn is_match(pattern: &str, haystack: &str) -> (r: Option<bool>)
    ensures
        r is Some <==> regex_compiles(pattern@),
        r is Some ==> r.unwrap() == regex_is_match(pattern@, haystack@),
{
    match Regex::new(pattern) {
        Ok(re) => Some(re.is_match(haystack)),
        Err(_) => None,
    }
}

/// Calls `Regex::new` on `pattern` and `Regex::captures` of the result on
/// `haystack`, and copies out the text of each group. Nothing is claimed of
/// either but that they are functions of their arguments: the answer is `None`
/// where the pattern is refused, and otherwise what `captures` found.
#[verifier::external_body]
fn captures(pattern: &str, haystack: &str) -> (r: Option<Option<Vec<Option<String>>>>)
    ensures
        r is Some <==> regex_compiles(pattern@),
        r is Some ==> (r.unwrap() is Some <==> regex_captures(pattern@, haystack@) is Some),
        r is Some && r.unwrap() is Some ==> groups_view(r.unwrap().unwrap()) == regex_captures(
            pattern@,
            haystack@,
        ).unwrap(),
{
    match Regex::new(pattern) {
        Ok(re) => match re.captures(haystack) {
            Some(found) => {
                let mut groups = Vec::new();
                for group in found.iter() {
                    groups.push(group.map(|m| m.as_str().to_owned()));
                }
                Some(Some(groups))
            },
            None => Some(None),
        },
        Err(_) => None,
    }
}

/// `pattern` is a regular expression and `text` matches it.
pub open spec fn accepts(pattern: Seq<char>, text: Seq<char>) -> bool {
    regex_compiles(pattern) && regex_is_match(pattern, text)
}

/// What `pattern` finds in `text`, and nothing where it is no regular
/// expression.
pub open spec fn finds(pattern: Seq<char>, text: Seq<char>) -> Option<Seq<Option<Seq<char>>>> {
    if regex_compiles(pattern) {
        regex_captures(pattern, text)
    } else {
        None
    }
}

/// The two names and whether each is as the bridge wants it, judged: the
/// application name first.
pub open spec fn judged(
    application_name: Seq<char>,
    device_name: Seq<char>,
    application_ok: bool,
    device_ok: bool,
) -> Result<(Seq<char>, Seq<char>), Error> {
    if !application_ok {
        Err(Error::ApplicationName)
    } else if !device_ok {
        Err(Error::DeviceName)
    } else {
        Ok((application_name, device_name))
    }
}

/// The application name and the device name among the groups of a match:
/// there are three groups, the whole match and the two names, and both names
/// took part.
pub open spec fn names_of(groups: Option<Seq<Option<Seq<char>>>>) -> Option<
    (Seq<char>, Seq<char>),
> {
    match groups {
        Some(g) => {
            if g.len() == 3 && g[1] is Some && g[2] is Some {
                Some((g[1].unwrap(), g[2].unwrap()))
            } else {
                None
            }
        },
        None => None,
    }
}

/// A device type, or the reason why there is none, with the names as
/// sequences of characters.
pub open spec fn seen(r: Result<DeviceType, Error>) -> Result<(Seq<char>, Seq<char>), Error> {
    match r {
        Ok(device_type) => Ok(device_type@),
        Err(e) => Err(e),
    }
}

impl View for DeviceType {
    type V = (Seq<char>, Seq<char>);

    open spec fn view(&self) -> (Seq<char>, Seq<char>) {
        (self.application_name@, self.device_name@)
    }
}

impl DeviceType {
    /// Both names are as the bridge wants them.
    pub open spec fn wf(self) -> bool {
        &&& accepts(APPLICATION_NAME_REGEX@, self.application_name@)
        &&& accepts(DEVICE_NAME_REGEX@, self.device_name@)
    }

    /// The device type of the two names, given for each whether it was found to
    /// be as the bridge wants it.
    pub fn checked(
        application_name: String,
        device_name: String,
        application_ok: bool,
        device_ok: bool,
    ) -> (r: Result<DeviceType, Error>)
        ensures
            seen(r) == judged(application_name@, device_name@, application_ok, device_ok),
    {
        if !application_ok {
            Err(Error::ApplicationName)
        } else if !device_ok {
            Err(Error::DeviceName)
        } else {
            Ok(DeviceType { application_name, device_name })
        }
    }

    /// The device type of the two names, where the application name matches
    /// `APPLICATION_NAME_REGEX` and the device name `DEVICE_NAME_REGEX`.
    pub fn new(application_name: String, device_name: String) -> (r: Result<DeviceType, Error>)
        ensures
            seen(r) == judged(
                application_name@,
                device_name@,
                accepts(APPLICATION_NAME_REGEX@, application_name@),
                accepts(DEVICE_NAME_REGEX@, device_name@),
            ),
            r is Ok ==> r.unwrap().wf(),
    {
        let application_ok = match is_match(APPLICATION_NAME_REGEX, application_name.as_str()) {
            Some(found) => found,
            None => false,
        };
        let device_ok = application_ok && match is_match(DEVICE_NAME_REGEX, device_name.as_str()) {
            Some(found) => found,
            None => false,
        };
        DeviceType::checked(application_name, device_name, application_ok, device_ok)
    }

    /// The two names with `#` between them.
    pub fn to_string(&self) -> (r: String)
        ensures
            r@ == self.application_name@ + seq!['#'] + self.device_name@,
    {
        proof {
            reveal_strlit("#");
            assert("#"@ =~= seq!['#']);
        }
        let mut text = self.application_name.clone();
        text.append("#");
        text.append(self.device_name.as_str());
        text
    }

    /// The application name and the device name among the groups of a match.
    pub fn names(groups: Option<Vec<Option<String>>>) -> (r: Option<(String, String)>)
        ensures
            match r {
                Some((application_name, device_name)) => groups is Some && names_of(
                    Some(groups_view(groups.unwrap())),
                ) == Some((application_name@, device_name@)),
                None => groups is None || names_of(Some(groups_view(groups.unwrap()))) is None,
            },
    {
        match groups {
            Some(groups) => {
                if groups.len() != 3 {
                    return None;
                }
                match (&groups[1], &groups[2]) {
                    (Some(application_name), Some(device_name)) => Some(
                        (application_name.clone(), device_name.clone()),
                    ),
                    _ => None,
                }
            },
            None => None,
        }
    }

    /// The device type that `s` spells: `s` matches `DEVICE_TYPE_REGEX`, and the
    /// two names it holds are judged as by `new`.
    pub fn from_str(s: &str) -> (r: Result<DeviceType, Error>)
        ensures
            seen(r) == match names_of(finds(DEVICE_TYPE_REGEX@, s@)) {
                Some((application_name, device_name)) => judged(
                    application_name,
                    device_name,
                    accepts(APPLICATION_NAME_REGEX@, application_name),
                    accepts(DEVICE_NAME_REGEX@, device_name),
                ),
                None => Err(Error::Invalid),
            },
    {
        let groups = match captures(DEVICE_TYPE_REGEX, s) {
            Some(groups) => groups,
            None => None,
        };
        match DeviceType::names(groups) {
            Some((application_name, device_name)) => DeviceType::new(application_name, device_name),
            None => Err(Error::Invalid),
        }
    }
}

} // verus!
