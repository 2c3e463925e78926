//! Media types, as the `mime` crate reads them.

use vstd::prelude::*;
use vstd::string::StringExecFns;
use crate::text::chars_of;

verus! {

/// What a media type is in contracts: its three names.
pub struct MediaTypeView {
    /// The top-level type, such as `text`.
    pub type_: Seq<char>,
    /// The subtype without a structured-syntax suffix, such as `svg`.
    pub subtype: Seq<char>,
    /// The suffix after the last `+` of the subtype, such as `xml`.
    pub suffix: Option<Seq<char>>,
}

/// A media type or a media range: `type/subtype`, with an optional `+suffix`.
/// Either name may be `*`.
#[derive(Debug)]
pub struct MediaType {
    type_: String,
    subtype: String,
    suffix: Option<String>,
}

impl View for MediaType {
    type V = MediaTypeView;

    open spec fn view(&self) -> MediaTypeView {
        MediaTypeView {
            type_: self.spec_type()@,
            subtype: self.spec_subtype()@,
            suffix: match self.spec_suffix() {
                Some(s) => Some(s@),
                None => None,
            },
        }
    }
}

/// What `mime` makes of a text: the names of the media type it reads there,
/// or `None` where it reads none.
pub uninterp spec fn mime_parse(text: Seq<char>) -> Option<MediaTypeView>;

/// The text of a media type without parameters: `type/subtype` or
/// `type/subtype+suffix`.
pub open spec fn essence_of(m: MediaTypeView) -> Seq<char> {
    let head = m.type_ + seq!['/'] + m.subtype;
    match m.suffix {
        Some(s) => head + seq!['+'] + s,
        None => head,
    }
}

/// `<mime::Mime as FromStr>::from_str`, then `Mime::type_`, `Mime::subtype`
/// and `Mime::suffix`. The contract names the outcome: the three names are
/// those that `mime` reads in `text`, and `None` comes exactly where `mime`
/// refuses the text. Parameters of the media type are not kept.
#[verifier::external_body]
fn read_mime(text: &str) -> (r: Option<MediaType>)
    ensures
        match r {
            Some(m) => mime_parse(text@) == Some(m@),
            None => mime_parse(text@) is None,
        },
{
    match text.parse::<mime::Mime>() {
        Ok(m) => Some(MediaType {
            type_: m.type_().as_str().to_owned(),
            subtype: m.subtype().as_str().to_owned(),
            suffix: match m.suffix() {
                Some(name) => Some(name.as_str().to_owned()),
                None => None,
            },
        }),
        Err(_) => None,
    }
}

/// Whether a name is the wildcard `*`.
fn is_star(name: &str) -> (r: bool)
    ensures
        r == (name@ == seq!['*']),
{
    let v = chars_of(name);
    let r = v.len() == 1 && v[0] == '*';
    assert(r == (v@ =~= seq!['*']));
    r
}

impl MediaType {
    pub closed spec fn spec_type(&self) -> String {
        self.type_
    }

    pub closed spec fn spec_subtype(&self) -> String {
        self.subtype
    }

    pub closed spec fn spec_suffix(&self) -> Option<String> {
        self.suffix
    }

    /// Reads a media type such as `text/html` or `image/svg+xml`.
    pub fn parse(text: &str) -> (r: Option<MediaType>)
        ensures
            match r {
                Some(m) => mime_parse(text@) == Some(m@),
                None => mime_parse(text@) is None,
            },
    {
        read_mime(text)
    }

    /// The top-level type.
    pub fn type_(&self) -> (r: &str)
        ensures
            r@ == self@.type_,
    {
        self.type_.as_str()
    }

    /// The subtype, without its suffix.
    pub fn subtype(&self) -> (r: &str)
        ensures
            r@ == self@.subtype,
    {
        self.subtype.as_str()
    }

    /// The structured-syntax suffix, if the subtype has one.
    pub fn suffix(&self) -> (r: Option<&str>)
        ensures
            match r {
                Some(s) => self@.suffix == Some(s@),
                None => self@.suffix is None,
            },
    {
        match &self.suffix {
            Some(s) => Some(s.as_str()),
            None => None,
        }
    }

    /// Whether this is a range over every subtype of its type, `type/*`.
    pub fn any_subtype(&self) -> (r: bool)
        ensures
            r == (self@.subtype == seq!['*'] && self@.suffix is None),
    {
        self.suffix.is_none() && is_star(self.subtype.as_str())
    }

    /// Whether this is the range over everything, `*/*`.
    pub fn any_type(&self) -> (r: bool)
        ensures
            r == (self@.type_ == seq!['*'] && self@.subtype == seq!['*'] && self@.suffix is None),
    {
        self.suffix.is_none() && is_star(self.type_.as_str()) && is_star(self.subtype.as_str())
    }

    /// Whether both have the same top-level type.
    pub fn same_type(&self, other: &MediaType) -> (r: bool)
        ensures
            r == (self@.type_ == other@.type_),
    {
        self.type_ == other.type_
    }

    /// Whether both are the same media type, name by name.
    pub fn same(&self, other: &MediaType) -> (r: bool)
        ensures
            r == (self@ == other@),
    {
        let suffixes = match &self.suffix {
            Some(a) => match &other.suffix {
                Some(b) => *a == *b,
                None => false,
            },
            None => other.suffix.is_none(),
        };
        assert(suffixes == (self@.suffix == other@.suffix));
        let types = self.type_ == other.type_;
        assert(types == (self@.type_ == other@.type_));
        let subtypes = self.subtype == other.subtype;
        assert(subtypes == (self@.subtype == other@.subtype));
        types && subtypes && suffixes
    }

    /// A copy of this media type.
    pub fn duplicate(&self) -> (r: MediaType)
        ensures
            r@ == self@,
    {
        MediaType {
            type_: self.type_.clone(),
            subtype: self.subtype.clone(),
            suffix: match &self.suffix {
                Some(s) => Some(s.clone()),
                None => None,
            },
        }
    }

    /// The media type as text, as a `Content-Type` header carries it.
    pub fn essence(&self) -> (r: String)
        ensures
            r@ == essence_of(self@),
    {
        proof {
            reveal_strlit("/");
            reveal_strlit("+");
        }
        let mut out = String::from_str(self.type_.as_str());
        out.append("/");
        out.append(self.subtype.as_str());
        assert("/"@ =~= seq!['/']);
        match &self.suffix {
            Some(s) => {
                out.append("+");
                out.append(s.as_str());
                assert("+"@ =~= seq!['+']);
            },
            None => {},
        }
        out
    }
}

} // verus!
