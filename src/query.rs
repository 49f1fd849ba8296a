use vstd::prelude::*;
use vstd::string::*;
use crate::error::ParseError;
use crate::text::{decimal, push_decimal, push_two_digits, two_digits};

verus! {

/// reqwest's `Url` (the `url` crate's type), carried as an opaque value:
/// nothing here reads inside it.
#[verifier::external_type_specification]
#[verifier::external_body]
pub struct ExUrl(reqwest::Url);

/// The characters of Unicode's White_Space property.
pub open spec fn white_space(c: char) -> bool {
    let u = c as u32;
    (0x09 <= u && u <= 0x0D) || u == 0x20 || u == 0x85 || u == 0xA0 || u == 0x1680 || (0x2000
        <= u && u <= 0x200A) || u == 0x2028 || u == 0x2029 || u == 0x202F || u == 0x205F || u
        == 0x3000
}

/// The number of white space characters that begin `s`.
pub open spec fn leading_white(s: Seq<char>) -> nat
    decreases s.len(),
{
    if s.len() == 0 || !white_space(s[0]) {
        0
    } else {
        1 + leading_white(s.drop_first())
    }
}

/// The number of white space characters that end `s`.
pub open spec fn trailing_white(s: Seq<char>) -> nat
    decreases s.len(),
{
    if s.len() == 0 || !white_space(s.last()) {
        0
    } else {
        1 + trailing_white(s.drop_last())
    }
}

/// `s` without its leading and trailing white space.
pub open spec fn trimmed(s: Seq<char>) -> Seq<char> {
    let t = s.subrange(leading_white(s) as int, s.len() as int);
    t.subrange(0, t.len() - trailing_white(t))
}

/// Relies on `str::trim`: the text without the leading and trailing
/// characters of Unicode's White_Space property.
#[verifier::external_body]
fn trim(s: &str) -> (r: String)
    ensures
        r@ == trimmed(s@),
{
    s.trim().to_string()
}

/// An empty text stands for an absent field.
pub open spec fn present(s: Seq<char>) -> Option<Seq<char>> {
    if s.len() == 0 { None } else { Some(s) }
}

/// The text of a field, the empty text where it is absent.
pub open spec fn shown(o: Option<Seq<char>>) -> Seq<char> {
    match o {
        Some(s) => s,
        None => Seq::empty(),
    }
}

/// The three fields separated by single spaces, before trimming.
pub open spec fn joined(track: Seq<char>, artist: Seq<char>, other: Seq<char>) -> Seq<char> {
    track + seq![' '] + artist + seq![' '] + other
}

/// Holds the information required to make a query.
pub struct QueryInfo {
    track_name: Option<String>,
    artist_name: Option<String>,
    other_info: Option<String>,
    raw: String,
}

fn optional_text(s: &str) -> (r: Option<String>)
    ensures
        r.is_some() == (s@.len() != 0),
        r.is_some() ==> r.unwrap()@ == s@,
{
    if s.is_empty() {
        None
    } else {
        Some(String::from_str(s))
    }
}

fn view_opt(o: &Option<String>) -> (r: &str)
    ensures
        r@ == shown(QueryInfo::opt_view(*o)),
{
    match o {
        Some(t) => t.as_str(),
        None => {
            proof {
                reveal_strlit("");
            }
            ""
        },
    }
}

impl QueryInfo {
    pub open spec fn opt_view(o: Option<String>) -> Option<Seq<char>> {
        match o {
            Some(s) => Some(s@),
            None => None,
        }
    }

    /// The track name, if one was given.
    pub closed spec fn spec_track_name(&self) -> Option<Seq<char>> {
        Self::opt_view(self.track_name)
    }

    /// The artist name, if one was given.
    pub closed spec fn spec_artist_name(&self) -> Option<Seq<char>> {
        Self::opt_view(self.artist_name)
    }

    /// The further information, if some was given.
    pub closed spec fn spec_other_info(&self) -> Option<Seq<char>> {
        Self::opt_view(self.other_info)
    }

    /// The free text of the query.
    pub closed spec fn spec_raw(&self) -> Seq<char> {
        self.raw@
    }

    /// Builds a query from its three fields. An empty argument leaves its
    /// field absent; the raw text is `"{track_name} {artist_name} {other_info}"`
    /// with leading and trailing white space trimmed.
    pub fn as_detailed(track_name: &str, artist_name: &str, other_info: &str) -> (r: Self)
        ensures
            r.spec_track_name() == present(track_name@),
            r.spec_artist_name() == present(artist_name@),
            r.spec_other_info() == present(other_info@),
            r.spec_raw() == trimmed(joined(track_name@, artist_name@, other_info@)),
            track_name@.len() == 0 && artist_name@.len() == 0 && other_info@.len() == 0
                ==> r.spec_raw().len() == 0,
    {
        proof {
            reveal_strlit(" ");
        }
        let mut text = String::from_str(track_name);
        text.append(" ");
        text.append(artist_name);
        text.append(" ");
        text.append(other_info);
        assert(text@ =~= joined(track_name@, artist_name@, other_info@));
        let raw = trim(text.as_str());
        let r = QueryInfo {
            track_name: optional_text(track_name),
            artist_name: optional_text(artist_name),
            other_info: optional_text(other_info),
            raw,
        };
        assert(r.spec_track_name() =~= present(track_name@));
        assert(r.spec_artist_name() =~= present(artist_name@));
        assert(r.spec_other_info() =~= present(other_info@));
        proof {
            if track_name@.len() == 0 && artist_name@.len() == 0 && other_info@.len() == 0 {
                let j = joined(track_name@, artist_name@, other_info@);
                assert(j =~= seq![' ', ' ']);
                assert(j.drop_first().drop_first() =~= Seq::<char>::empty());
                assert(leading_white(j.drop_first().drop_first()) == 0);
                assert(j.drop_first()[0] == ' ');
                assert(white_space(' '));
                assert(leading_white(j.drop_first()) == 1);
                assert(leading_white(j) == 2);
                assert(j.subrange(2, 2) =~= Seq::<char>::empty());
            }
        }
        r
    }

    /// Builds a query from free text alone: the three fields are absent.
    pub fn as_raw(raw: &str) -> (r: Self)
        ensures
            r.spec_track_name() is None,
            r.spec_artist_name() is None,
            r.spec_other_info() is None,
            r.spec_raw() == raw@,
    {
        QueryInfo { track_name: None, artist_name: None, other_info: None, raw: String::from_str(raw) }
    }

    /// The track name, or the empty text where it is absent.
    pub fn track_name(&self) -> (r: &str)
        ensures
            r@ == shown(self.spec_track_name()),
    {
        view_opt(&self.track_name)
    }

    /// The artist name, or the empty text where it is absent.
    pub fn artist_name(&self) -> (r: &str)
        ensures
            r@ == shown(self.spec_artist_name()),
    {
        view_opt(&self.artist_name)
    }

    /// The further information, or the empty text where it is absent.
    pub fn other_info(&self) -> (r: &str)
        ensures
            r@ == shown(self.spec_other_info()),
    {
        view_opt(&self.other_info)
    }

    pub fn raw(&self) -> (r: &str)
        ensures
            r@ == self.spec_raw(),
    {
        self.raw.as_str()
    }

    /// A query is empty when its raw text is.
    pub fn is_empty(&self) -> (r: bool)
        ensures
            r == (self.spec_raw().len() == 0),
    {
        self.raw.as_str().is_empty()
    }
}

/// The text of a span of `secs` seconds: `m:ss` below one hour, `h:mm:ss`
/// from one hour on.
pub open spec fn duration_text(secs: nat) -> Seq<char> {
    if secs >= 3600 {
        decimal(secs / 3600) + seq![':'] + two_digits((secs % 3600) / 60) + seq![':']
            + two_digits(secs % 60)
    } else {
        decimal(secs / 60) + seq![':'] + two_digits(secs % 60)
    }
}

/// Formats a span of whole seconds. A span of exactly one hour already
/// counts its hours: 3600 seconds read `1:00:00`.
pub fn format_duration(secs: u64) -> (r: String)
    ensures
        r@ == duration_text(secs as nat),
{
    proof {
        reveal_strlit(":");
    }
    let mut r = String::new();
    if secs >= 3600 {
        push_decimal(&mut r, secs / 3600);
        r.append(":");
        push_two_digits(&mut r, (secs % 3600) / 60);
        r.append(":");
        push_two_digits(&mut r, secs % 60);
    } else {
        push_decimal(&mut r, secs / 60);
        r.append(":");
        push_two_digits(&mut r, secs % 60);
    }
    assert(r@ =~= duration_text(secs as nat));
    r
}

/// The length of a track: whole seconds and the nanoseconds beyond them.
#[derive(Clone, Copy, Debug, PartialEq, Eq, Structural)]
pub struct TrackDuration {
    secs: u64,
    nanos: u32,
}

impl TrackDuration {
    pub closed spec fn spec_secs(&self) -> nat {
        self.secs as nat
    }

    pub closed spec fn spec_nanos(&self) -> nat {
        self.nanos as nat
    }

    /// A length of whole seconds.
    pub fn from_secs(secs: u64) -> (r: Self)
        ensures
            r.spec_secs() == secs,
            r.spec_nanos() == 0,
    {
        TrackDuration { secs, nanos: 0 }
    }

    /// A length of `secs` seconds and `nanos` nanoseconds, less than one
    /// second.
    pub fn new(secs: u64, nanos: u32) -> (r: Self)
        requires
            nanos < 1_000_000_000,
        ensures
            r.spec_secs() == secs,
            r.spec_nanos() == nanos,
    {
        TrackDuration { secs, nanos }
    }

    /// The whole seconds.
    pub fn as_secs(&self) -> (r: u64)
        ensures
            r == self.spec_secs(),
    {
        self.secs
    }

    /// The nanoseconds beyond the whole seconds.
    pub fn subsec_nanos(&self) -> (r: u32)
        ensures
            r == self.spec_nanos(),
            r < 1_000_000_000,
    {
        proof {
            use_type_invariant(self);
        }
        self.nanos
    }

    #[verifier::type_invariant]
    spec fn inv(&self) -> bool {
        self.nanos < 1_000_000_000
    }
}

/// Holds the information pulled from the plugin service, in the order the
/// service ranked it.
#[derive(Debug)]
pub struct QueryResult {
    data: Vec<QueryResultData>,
}

impl QueryResult {
    pub closed spec fn spec_data(&self) -> Seq<QueryResultData> {
        self.data@
    }

    pub fn new(data: Vec<QueryResultData>) -> (r: Self)
        ensures
            r.spec_data() == data@,
    {
        QueryResult { data }
    }

    pub fn data(&self) -> (r: &Vec<QueryResultData>)
        ensures
            r@ == self.spec_data(),
    {
        &self.data
    }
}

/// Implemented for each pair of a source and a result structure to tell how
/// a piece of information pulled from a plugin's service becomes a result.
/// `P` is the plugin the implementation is for, so that the trait can be
/// implemented where both `S` and `R` are defined elsewhere.
pub trait Deserializable<S, R, P> {
    fn parse(source: &S) -> Result<R, ParseError>;
}

/// One track found by a plugin's service.
#[derive(Debug)]
pub struct QueryResultData {
    track_id: String,
    track_name: String,
    track_url: reqwest::Url,
    track_thumbnail: reqwest::Url,
    artist_name: String,
    artist_thumbnail: reqwest::Url,
    duration: TrackDuration,
}

impl QueryResultData {
    pub closed spec fn spec_track_id(&self) -> Seq<char> {
        self.track_id@
    }

    pub closed spec fn spec_track_name(&self) -> Seq<char> {
        self.track_name@
    }

    pub closed spec fn spec_track_url(&self) -> reqwest::Url {
        self.track_url
    }

    pub closed spec fn spec_track_thumbnail(&self) -> reqwest::Url {
        self.track_thumbnail
    }

    pub closed spec fn spec_artist_name(&self) -> Seq<char> {
        self.artist_name@
    }

    pub closed spec fn spec_artist_thumbnail(&self) -> reqwest::Url {
        self.artist_thumbnail
    }

    pub closed spec fn spec_duration(&self) -> TrackDuration {
        self.duration
    }

    /// The addresses come as parsed `Url`s, so they are well formed.
    pub fn new(
        track_id: &str,
        track_name: &str,
        track_url: reqwest::Url,
        track_thumbnail: reqwest::Url,
        artist_name: &str,
        artist_thumbnail: reqwest::Url,
        duration: TrackDuration,
    ) -> (r: Self)
        ensures
            r.spec_track_id() == track_id@,
            r.spec_track_name() == track_name@,
            r.spec_track_url() == track_url,
            r.spec_track_thumbnail() == track_thumbnail,
            r.spec_artist_name() == artist_name@,
            r.spec_artist_thumbnail() == artist_thumbnail,
            r.spec_duration() == duration,
    {
        QueryResultData {
            track_id: String::from_str(track_id),
            track_name: String::from_str(track_name),
            track_url,
            track_thumbnail,
            artist_name: String::from_str(artist_name),
            artist_thumbnail,
            duration,
        }
    }

    pub fn track_id(&self) -> (r: &str)
        ensures
            r@ == self.spec_track_id(),
    {
        self.track_id.as_str()
    }

    pub fn track_name(&self) -> (r: &str)
        ensures
            r@ == self.spec_track_name(),
    {
        self.track_name.as_str()
    }

    pub fn track_url(&self) -> (r: &reqwest::Url)
        ensures
            *r == self.spec_track_url(),
    {
        &self.track_url
    }

    pub fn track_thumbnail(&self) -> (r: &reqwest::Url)
        ensures
            *r == self.spec_track_thumbnail(),
    {
        &self.track_thumbnail
    }

    pub fn artist_name(&self) -> (r: &str)
        ensures
            r@ == self.spec_artist_name(),
    {
        self.artist_name.as_str()
    }

    pub fn artist_thumbnail(&self) -> (r: &reqwest::Url)
        ensures
            *r == self.spec_artist_thumbnail(),
    {
        &self.artist_thumbnail
    }

    pub fn duration(&self) -> (r: &TrackDuration)
        ensures
            *r == self.spec_duration(),
    {
        &self.duration
    }

    /// Formats the whole seconds of `duration` as `format_duration` does.
    pub fn duration_str(duration: TrackDuration) -> (r: String)
        ensures
            r@ == duration_text(duration.spec_secs()),
    {
        format_duration(duration.as_secs())
    }
}

} // verus!
