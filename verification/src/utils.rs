//! Stream keys and video codec names.
use vstd::prelude::*;
use vstd::string::*;

verus! {

/// The kind of a Go Live stream.
#[derive(Debug, Clone, Copy, PartialEq, Eq, Structural)]
pub enum StreamType {
    Guild,
    Call,
}

impl StreamType {
    /// The name of the kind as it appears in stream keys.
    pub open spec fn name(self) -> Seq<char> {
        match self {
            StreamType::Guild => "guild"@,
            StreamType::Call => "call"@,
        }
    }

    /// The name of the kind as it appears in stream keys.
    pub fn to_string(&self) -> (r: String)
        ensures
            r@ == self.name(),
    {
        match self {
            StreamType::Guild => String::from_str("guild"),
            StreamType::Call => String::from_str("call"),
        }
    }
}

/// A parsed stream key.
#[derive(Debug, Clone)]
pub struct StreamKey {
    pub kind: StreamType,
    pub guild_id: Option<String>,
    pub channel_id: String,
    pub user_id: String,
}

/// The contents of a stream key.
pub struct StreamKeyView {
    pub kind: StreamType,
    pub guild_id: Option<Seq<char>>,
    pub channel_id: Seq<char>,
    pub user_id: Seq<char>,
}

impl View for StreamKey {
    type V = StreamKeyView;

    open spec fn view(&self) -> StreamKeyView {
        StreamKeyView {
            kind: self.kind,
            guild_id: match self.guild_id {
                Some(g) => Some(g@),
                None => None,
            },
            channel_id: self.channel_id@,
            user_id: self.user_id@,
        }
    }
}

/// Why a stream key was refused.
#[derive(Debug)]
pub enum StreamKeyError {
    /// The key starts with neither `guild` nor `call`; holds what it starts with.
    InvalidType(String),
    /// The key has too few parts for its kind; holds the key.
    TooShort(String),
}

/// The contents of a stream key error.
pub enum StreamKeyErrorView {
    InvalidType(Seq<char>),
    TooShort(Seq<char>),
}

impl View for StreamKeyError {
    type V = StreamKeyErrorView;

    open spec fn view(&self) -> StreamKeyErrorView {
        match self {
            StreamKeyError::InvalidType(s) => StreamKeyErrorView::InvalidType(s@),
            StreamKeyError::TooShort(s) => StreamKeyErrorView::TooShort(s@),
        }
    }
}

/// The first `:` at or after position `i`.
pub open spec fn find_colon(s: Seq<char>, i: int) -> Option<int>
    decreases s.len() - i,
{
    if i < 0 || i >= s.len() {
        None
    } else if s[i] == ':' {
        Some(i)
    } else {
        find_colon(s, i + 1)
    }
}

/// `s` from position `start` cut at `:` into at most `n` parts, the last one keeping the
/// rest.
pub open spec fn split_colon_from(s: Seq<char>, start: int, n: nat) -> Seq<Seq<char>>
    decreases n,
{
    if n <= 1 {
        seq![s.subrange(start, s.len() as int)]
    } else {
        match find_colon(s, start) {
            Some(i) => seq![s.subrange(start, i)] + split_colon_from(s, i + 1, (n - 1) as nat),
            None => seq![s.subrange(start, s.len() as int)],
        }
    }
}

/// What `parse_stream_key` gives for a key: `guild:<guild>:<channel>:<user>` or
/// `call:<channel>:<user>`, split at the first four colons.
pub open spec fn spec_parse_stream_key(key: Seq<char>) -> Result<StreamKeyView, StreamKeyErrorView> {
    let parts = split_colon_from(key, 0, 5);
    if parts[0] == "guild"@ {
        if parts.len() < 4 {
            Err(StreamKeyErrorView::TooShort(key))
        } else {
            Ok(
                StreamKeyView {
                    kind: StreamType::Guild,
                    guild_id: Some(parts[1]),
                    channel_id: parts[2],
                    user_id: parts[3],
                },
            )
        }
    } else if parts[0] == "call"@ {
        if parts.len() < 3 {
            Err(StreamKeyErrorView::TooShort(key))
        } else {
            Ok(
                StreamKeyView {
                    kind: StreamType::Call,
                    guild_id: None,
                    channel_id: parts[1],
                    user_id: parts[2],
                },
            )
        }
    } else {
        Err(StreamKeyErrorView::InvalidType(parts[0]))
    }
}

/// The key `generate_stream_key` writes.
pub open spec fn spec_generate_stream_key(
    kind: StreamType,
    guild_id: Option<Seq<char>>,
    channel_id: Seq<char>,
    user_id: Seq<char>,
) -> Seq<char> {
    match kind {
        StreamType::Guild => "guild:"@ + match guild_id {
            Some(g) => g,
            None => Seq::empty(),
        } + ":"@ + channel_id + ":"@ + user_id,
        StreamType::Call => "call:"@ + channel_id + ":"@ + user_id,
    }
}

/// The first `:` in `s` at or after `from`.
fn find_colon_from(s: &str, from: usize) -> (r: Option<usize>)
    requires
        from <= s@.len(),
    ensures
        match find_colon(s@, from as int) {
            Some(i) => r == Some(i as usize) && from <= i < s@.len(),
            None => r is None,
        },
{
    let len = s.unicode_len();
    let mut i = from;
    while i < len
        invariant
            len == s@.len(),
            from <= i <= len,
            find_colon(s@, from as int) == find_colon(s@, i as int),
        decreases len - i,
    {
        if s.get_char(i) == ':' {
            return Some(i);
        }
        i = i + 1;
    }
    None
}

/// Whether two strings hold the same characters.
pub fn str_eq(a: &str, b: &str) -> (r: bool)
    ensures
        r == (a@ == b@),
{
    let n = a.unicode_len();
    if n != b.unicode_len() {
        return false;
    }
    let mut i: usize = 0;
    while i < n
        invariant
            n == a@.len(),
            n == b@.len(),
            i <= n,
            forall|j: int| 0 <= j < i ==> a@[j] == b@[j],
        decreases n - i,
    {
        if a.get_char(i) != b.get_char(i) {
            return false;
        }
        i = i + 1;
    }
    proof {
        assert(a@ =~= b@);
    }
    true
}

/// Parses a stream key: `guild:<guild_id>:<channel_id>:<user_id>` or
/// `call:<channel_id>:<user_id>`.
pub fn parse_stream_key(key: &str) -> (r: Result<StreamKey, StreamKeyError>)
    ensures
        match spec_parse_stream_key(key@) {
            Ok(v) => r matches Ok(k) && k@ == v,
            Err(e) => r matches Err(er) && er@ == e,
        },
{
    let len = key.unicode_len();
    let mut parts: Vec<&str> = Vec::new();
    let mut start: usize = 0;
    let mut k: u32 = 1;
    let ghost whole = split_colon_from(key@, 0, 5);
    let mut done = false;
    while k < 5 && !done
        invariant
            len == key@.len(),
            1 <= k <= 5,
            start <= len,
            parts@.len() == k - 1,
            done ==> whole == parts@.map_values(|p: &str| p@) + seq![key@.subrange(start as int, len as int)],
            !done ==> whole == parts@.map_values(|p: &str| p@) + split_colon_from(key@, start as int, (5 - k + 1) as nat),
        decreases 2 * (5 - k) + (if done { 0int } else { 1int }),
    {
        match find_colon_from(key, start) {
            Some(i) => {
                let part = key.substring_char(start, i);
                let ghost before = parts@;
                parts.push(part);
                proof {
                    assert(parts@.map_values(|p: &str| p@) =~= before.map_values(|p: &str| p@)
                        + seq![part@]);
                }
                start = i + 1;
                k = k + 1;
            },
            None => {
                done = true;
            },
        }
    }
    let last = key.substring_char(start, len);
    let ghost before = parts@;
    parts.push(last);
    let ghost pv = parts@.map_values(|p: &str| p@);
    proof {
        assert(pv =~= before.map_values(|p: &str| p@) + seq![last@]);
        if !done {
            assert(k == 5);
            assert(split_colon_from(key@, start as int, 1) == seq![last@]);
        }
        assert(pv =~= whole);
        assert(pv.len() == parts@.len());
        assert(forall|j: int| 0 <= j < parts@.len() ==> pv[j] == (#[trigger] parts@[j])@);
    }
    let kind_str = parts[0];
    if str_eq(kind_str, "guild") {
        if parts.len() - 1 < 3 {
            return Err(StreamKeyError::TooShort(key.to_owned()));
        }
        Ok(
            StreamKey {
                kind: StreamType::Guild,
                guild_id: Some(parts[1].to_owned()),
                channel_id: parts[2].to_owned(),
                user_id: parts[3].to_owned(),
            },
        )
    } else if str_eq(kind_str, "call") {
        if parts.len() - 1 < 2 {
            return Err(StreamKeyError::TooShort(key.to_owned()));
        }
        Ok(
            StreamKey {
                kind: StreamType::Call,
                guild_id: None,
                channel_id: parts[1].to_owned(),
                user_id: parts[2].to_owned(),
            },
        )
    } else {
        Err(StreamKeyError::InvalidType(kind_str.to_owned()))
    }
}

/// Writes a stream key: `guild:<guild_id>:<channel_id>:<user_id>` (an absent guild id
/// written empty) or `call:<channel_id>:<user_id>`.
pub fn generate_stream_key(
    kind: StreamType,
    guild_id: Option<&str>,
    channel_id: &str,
    user_id: &str,
) -> (r: String)
    ensures
        r@ == spec_generate_stream_key(
            kind,
            match guild_id {
                Some(g) => Some(g@),
                None => None,
            },
            channel_id@,
            user_id@,
        ),
{
    match kind {
        StreamType::Guild => {
            let mut s = String::from_str("guild:");
            match guild_id {
                Some(g) => s.append(g),
                None => s.append(""),
            }
            s.append(":");
            s.append(channel_id);
            s.append(":");
            s.append(user_id);
            proof {
                reveal_strlit("");
                assert(""@ =~= Seq::<char>::empty());
            }
            s
        },
        StreamType::Call => {
            let mut s = String::from_str("call:");
            s.append(channel_id);
            s.append(":");
            s.append(user_id);
            s
        },
    }
}

/// Whether a string holds no `:`.
pub open spec fn no_colon(s: Seq<char>) -> bool {
    forall|i: int| 0 <= i < s.len() ==> s[i] != ':'
}

/// `find_colon` finds the colon at `j` when there is none from `i` to `j`.
proof fn lemma_find_colon_at(s: Seq<char>, i: int, j: int)
    requires
        0 <= i <= j < s.len(),
        s[j] == ':',
        forall|k: int| i <= k < j ==> s[k] != ':',
    ensures
        find_colon(s, i) == Some(j),
    decreases j - i,
{
    if i < j {
        lemma_find_colon_at(s, i + 1, j);
    }
}

/// `find_colon` finds nothing when there is no colon from `i` on.
proof fn lemma_find_colon_none(s: Seq<char>, i: int)
    requires
        0 <= i,
        forall|k: int| i <= k < s.len() ==> s[k] != ':',
    ensures
        find_colon(s, i) is None,
    decreases s.len() - i,
{
    if i < s.len() {
        lemma_find_colon_none(s, i + 1);
    }
}

/// Parsing a generated stream key gives back its parts, when none of them holds a `:`
/// (an absent guild id comes back empty).
pub proof fn lemma_parse_generated_stream_key(
    kind: StreamType,
    guild_id: Option<Seq<char>>,
    channel_id: Seq<char>,
    user_id: Seq<char>,
)
    requires
        guild_id matches Some(g) ==> no_colon(g),
        no_colon(channel_id),
        no_colon(user_id),
    ensures
        spec_parse_stream_key(spec_generate_stream_key(kind, guild_id, channel_id, user_id))
            == Ok::<StreamKeyView, StreamKeyErrorView>(
            StreamKeyView {
                kind,
                guild_id: match kind {
                    StreamType::Guild => Some(
                        match guild_id {
                            Some(g) => g,
                            None => Seq::empty(),
                        },
                    ),
                    StreamType::Call => None,
                },
                channel_id,
                user_id,
            },
        ),
{
    reveal_strlit("guild:");
    reveal_strlit("call:");
    reveal_strlit(":");
    reveal_strlit("guild");
    reveal_strlit("call");
    let key = spec_generate_stream_key(kind, guild_id, channel_id, user_id);
    let c = channel_id;
    let u = user_id;
    match kind {
        StreamType::Guild => {
            let g = match guild_id {
                Some(g) => g,
                None => Seq::<char>::empty(),
            };
            let a: int = 6 + g.len() as int;
            let b: int = a + 1 + c.len() as int;
            assert(key =~= "guild:"@ + g + ":"@ + c + ":"@ + u);
            assert(key.len() == b + 1 + u.len());
            assert forall|k: int| 0 <= k < 5 implies key[k] != ':' by {}
            lemma_find_colon_at(key, 0, 5);
            assert forall|k: int| 6 <= k < a implies key[k] != ':' by {
                assert(key[k] == g[k - 6]);
            }
            lemma_find_colon_at(key, 6, a);
            assert forall|k: int| a + 1 <= k < b implies key[k] != ':' by {
                assert(key[k] == c[k - a - 1]);
            }
            lemma_find_colon_at(key, a + 1, b);
            assert forall|k: int| b + 1 <= k < key.len() implies key[k] != ':' by {
                assert(key[k] == u[k - b - 1]);
            }
            lemma_find_colon_none(key, b + 1);
            let parts = split_colon_from(key, 0, 5);
            assert(split_colon_from(key, b + 1, 2) == seq![key.subrange(b + 1, key.len() as int)]);
            assert(split_colon_from(key, a + 1, 3) == seq![key.subrange(a + 1, b)] + split_colon_from(key, b + 1, 2));
            assert(split_colon_from(key, 6, 4) == seq![key.subrange(6, a)] + split_colon_from(key, a + 1, 3));
            assert(parts == seq![key.subrange(0, 5)] + split_colon_from(key, 6, 4));
            assert(parts =~= seq![
                key.subrange(0, 5),
                key.subrange(6, a),
                key.subrange(a + 1, b),
                key.subrange(b + 1, key.len() as int),
            ]);
            assert(key.subrange(0, 5) =~= "guild"@);
            assert(key.subrange(6, a) =~= g);
            assert(key.subrange(a + 1, b) =~= c);
            assert(key.subrange(b + 1, key.len() as int) =~= u);
        },
        StreamType::Call => {
            let a: int = 5 + c.len() as int;
            assert(key =~= "call:"@ + c + ":"@ + u);
            assert forall|k: int| 0 <= k < 4 implies key[k] != ':' by {}
            lemma_find_colon_at(key, 0, 4);
            assert forall|k: int| 5 <= k < a implies key[k] != ':' by {
                assert(key[k] == c[k - 5]);
            }
            lemma_find_colon_at(key, 5, a);
            assert forall|k: int| a + 1 <= k < key.len() implies key[k] != ':' by {
                assert(key[k] == u[k - a - 1]);
            }
            lemma_find_colon_none(key, a + 1);
            let parts = split_colon_from(key, 0, 5);
            assert(split_colon_from(key, a + 1, 3) == seq![key.subrange(a + 1, key.len() as int)]);
            assert(split_colon_from(key, 5, 4) == seq![key.subrange(5, a)] + split_colon_from(key, a + 1, 3));
            assert(parts == seq![key.subrange(0, 4)] + split_colon_from(key, 5, 4));
            assert(parts =~= seq![
                key.subrange(0, 4),
                key.subrange(5, a),
                key.subrange(a + 1, key.len() as int),
            ]);
            assert(key.subrange(0, 4) =~= "call"@);
            assert(key.subrange(5, a) =~= c);
            assert(key.subrange(a + 1, key.len() as int) =~= u);
            assert(parts[0] != "guild"@);
        },
    }
}

/// The video codecs Discord streams.
#[derive(Debug, Clone, Copy, PartialEq, Eq, Structural)]
pub enum VideoCodec {
    H264,
    H265,
    Vp8,
    Vp9,
    Av1,
}

impl VideoCodec {
    /// The codec's display name.
    pub open spec fn name(self) -> Seq<char> {
        match self {
            VideoCodec::H264 => "H264"@,
            VideoCodec::H265 => "H265"@,
            VideoCodec::Vp8 => "VP8"@,
            VideoCodec::Vp9 => "VP9"@,
            VideoCodec::Av1 => "AV1"@,
        }
    }

    /// The codec's display name.
    pub fn to_string(&self) -> (r: String)
        ensures
            r@ == self.name(),
    {
        match self {
            VideoCodec::H264 => String::from_str("H264"),
            VideoCodec::H265 => String::from_str("H265"),
            VideoCodec::Vp8 => String::from_str("VP8"),
            VideoCodec::Vp9 => String::from_str("VP9"),
            VideoCodec::Av1 => String::from_str("AV1"),
        }
    }
}

/// A codec name that names none of the supported codecs; holds the name.
#[derive(Debug)]
pub struct UnknownCodecError(pub String);

/// The uppercase form of a string as `str::to_uppercase` gives it (full Unicode case
/// mapping).
pub uninterp spec fn uppercase(s: Seq<char>) -> Seq<char>;

/// Whether every character of `s` is ASCII.
pub open spec fn is_ascii_text(s: Seq<char>) -> bool {
    forall|i: int| 0 <= i < s.len() ==> (#[trigger] s[i] as u32) < 128
}

/// The ASCII uppercase of a character: `a` to `z` become `A` to `Z`.
pub open spec fn ascii_upper(c: char) -> char {
    if 'a' <= c && c <= 'z' {
        ((c as u32) - 32) as char
    } else {
        c
    }
}

/// The ASCII lowercase of a character: `A` to `Z` become `a` to `z`.
pub open spec fn ascii_lower(c: char) -> char {
    if 'A' <= c && c <= 'Z' {
        ((c as u32) + 32) as char
    } else {
        c
    }
}

/// `str::to_uppercase`: the result is the `uppercase` of the input; as its
/// documentation's Unicode case mapping gives for ASCII, an ASCII string is mapped
/// character by character, each lowercase letter to its capital.
#[verifier::external_body]
fn to_uppercase(s: &str) -> (r: String)
    ensures
        r@ == uppercase(s@),
        is_ascii_text(s@) ==> r@ == s@.map_values(|c: char| ascii_upper(c)),
{
    s.to_uppercase()
}

/// Whether `pat` occurs in `s`.
pub open spec fn has_substring(s: Seq<char>, pat: Seq<char>) -> bool {
    exists|i: int| 0 <= i && i + pat.len() <= s.len() && #[trigger] s.subrange(i, i + pat.len()) == pat
}

/// The codec an uppercase codec name names, tried in this order: `264`/`AVC`,
/// `265`/`HEVC`, `VP8`, `VP9`, `AV1`.
pub open spec fn codec_of_uppercase(u: Seq<char>) -> Option<VideoCodec> {
    if has_substring(u, "264"@) || has_substring(u, "AVC"@) {
        Some(VideoCodec::H264)
    } else if has_substring(u, "265"@) || has_substring(u, "HEVC"@) {
        Some(VideoCodec::H265)
    } else if has_substring(u, "VP8"@) {
        Some(VideoCodec::Vp8)
    } else if has_substring(u, "VP9"@) {
        Some(VideoCodec::Vp9)
    } else if has_substring(u, "AV1"@) {
        Some(VideoCodec::Av1)
    } else {
        None
    }
}

/// Whether `pat` occurs in `s`.
fn str_contains(s: &str, pat: &str) -> (r: bool)
    ensures
        r == has_substring(s@, pat@),
{
    let n = s.unicode_len();
    let m = pat.unicode_len();
    if m > n {
        return false;
    }
    let mut i: usize = 0;
    while i <= n - m
        invariant
            n == s@.len(),
            m == pat@.len(),
            m <= n,
            i <= n - m + 1,
            forall|k: int| 0 <= k < i ==> #[trigger] s@.subrange(k, k + m) != pat@,
        decreases n - m + 1 - i,
    {
        let mut j: usize = 0;
        let mut same = true;
        while j < m
            invariant
                n == s@.len(),
                m == pat@.len(),
                i + m <= n,
                j <= m,
                same == forall|k: int| 0 <= k < j ==> s@[i + k] == pat@[k],
            decreases m - j,
        {
            if s.get_char(i + j) != pat.get_char(j) {
                same = false;
            }
            j = j + 1;
        }
        if same {
            proof {
                assert(s@.subrange(i as int, i + m) =~= pat@);
            }
            return true;
        }
        proof {
            let k0 = choose|k: int| 0 <= k < m && s@[i + k] != pat@[k];
            assert(s@.subrange(i as int, i + m)[k0] != pat@[k0]);
        }
        i = i + 1;
    }
    proof {
        assert forall|k: int| 0 <= k && k + pat@.len() <= s@.len() implies #[trigger] s@.subrange(k, k + pat@.len()) != pat@ by {
            assert(k < i);
        }
    }
    false
}

/// The codec an uppercase codec name names.
pub fn video_codec_of_uppercase(upper: &str) -> (r: Option<VideoCodec>)
    ensures
        r == codec_of_uppercase(upper@),
{
    if str_contains(upper, "264") || str_contains(upper, "AVC") {
        return Some(VideoCodec::H264);
    }
    if str_contains(upper, "265") || str_contains(upper, "HEVC") {
        return Some(VideoCodec::H265);
    }
    if str_contains(upper, "VP8") {
        return Some(VideoCodec::Vp8);
    }
    if str_contains(upper, "VP9") {
        return Some(VideoCodec::Vp9);
    }
    if str_contains(upper, "AV1") {
        return Some(VideoCodec::Av1);
    }
    None
}

/// Names a codec from a codec string, case-insensitively: the uppercase string is
/// searched for `264`/`AVC`, `265`/`HEVC`, `VP8`, `VP9`, `AV1`, in that order.
pub fn normalize_video_codec(s: &str) -> (r: Result<VideoCodec, UnknownCodecError>)
    ensures
        match codec_of_uppercase(uppercase(s@)) {
            Some(c) => r == Ok::<VideoCodec, UnknownCodecError>(c),
            None => r matches Err(e) && e.0@ == s@,
        },
        is_ascii_text(s@) ==> match codec_of_uppercase(s@.map_values(|c: char| ascii_upper(c))) {
            Some(c) => r == Ok::<VideoCodec, UnknownCodecError>(c),
            None => r matches Err(e) && e.0@ == s@,
        },
{
    let upper = to_uppercase(s);
    match video_codec_of_uppercase(upper.as_str()) {
        Some(c) => Ok(c),
        None => Err(UnknownCodecError(s.to_owned())),
    }
}

/// `pat` does not occur in `s` when one of its characters is not in `s`.
proof fn lemma_absent_char(s: Seq<char>, pat: Seq<char>, k: int)
    requires
        0 <= k < pat.len(),
        forall|i: int| 0 <= i < s.len() ==> s[i] != pat[k],
    ensures
        !has_substring(s, pat),
{
    if has_substring(s, pat) {
        let i = choose|i: int| 0 <= i && i + pat.len() <= s.len() && #[trigger] s.subrange(i, i + pat.len()) == pat;
        assert(s.subrange(i, i + pat.len())[k] == s[i + k]);
    }
}

/// `pat` occurs in `s` at `i`.
proof fn lemma_occurs_at(s: Seq<char>, pat: Seq<char>, i: int)
    requires
        0 <= i && i + pat.len() <= s.len(),
        forall|k: int| 0 <= k < pat.len() ==> s[i + k] == pat[k],
    ensures
        has_substring(s, pat),
{
    assert(s.subrange(i, i + pat.len()) =~= pat);
}

/// A codec's display name is already uppercase.
proof fn lemma_name_uppercase(c: VideoCodec)
    ensures
        is_ascii_text(c.name()),
        c.name().map_values(|x: char| ascii_upper(x)) == c.name(),
{
    reveal_strlit("H264");
    reveal_strlit("H265");
    reveal_strlit("VP8");
    reveal_strlit("VP9");
    reveal_strlit("AV1");
    assert(c.name().map_values(|x: char| ascii_upper(x)) =~= c.name());
}

/// A codec's display name names the codec again: `normalize_video_codec` of it
/// (which reads an ASCII name through its ASCII uppercase) gives the codec.
pub proof fn lemma_codec_name_roundtrip(c: VideoCodec)
    ensures
        is_ascii_text(c.name()),
        codec_of_uppercase(c.name().map_values(|x: char| ascii_upper(x))) == Some(c),
{
    lemma_name_uppercase(c);
    reveal_strlit("H264");
    reveal_strlit("H265");
    reveal_strlit("VP8");
    reveal_strlit("VP9");
    reveal_strlit("AV1");
    reveal_strlit("264");
    reveal_strlit("AVC");
    reveal_strlit("265");
    reveal_strlit("HEVC");
    let n = c.name();
    match c {
        VideoCodec::H264 => {
            lemma_occurs_at(n, "264"@, 1);
        },
        VideoCodec::H265 => {
            lemma_absent_char(n, "264"@, 2);
            lemma_absent_char(n, "AVC"@, 0);
            lemma_occurs_at(n, "265"@, 1);
        },
        VideoCodec::Vp8 => {
            lemma_absent_char(n, "264"@, 0);
            lemma_absent_char(n, "AVC"@, 0);
            lemma_absent_char(n, "265"@, 0);
            lemma_absent_char(n, "HEVC"@, 0);
            lemma_occurs_at(n, "VP8"@, 0);
        },
        VideoCodec::Vp9 => {
            lemma_absent_char(n, "264"@, 0);
            lemma_absent_char(n, "AVC"@, 0);
            lemma_absent_char(n, "265"@, 0);
            lemma_absent_char(n, "HEVC"@, 0);
            lemma_absent_char(n, "VP8"@, 2);
            lemma_occurs_at(n, "VP9"@, 0);
        },
        VideoCodec::Av1 => {
            lemma_absent_char(n, "264"@, 0);
            lemma_absent_char(n, "AVC"@, 2);
            lemma_absent_char(n, "265"@, 0);
            lemma_absent_char(n, "HEVC"@, 0);
            lemma_absent_char(n, "VP8"@, 2);
            lemma_absent_char(n, "VP9"@, 2);
            lemma_occurs_at(n, "AV1"@, 0);
        },
    }
}

/// Codec names are read case-insensitively: for an ASCII name, its ASCII
/// lowercase names the same codec as `normalize_video_codec` reads it (or none,
/// as it does).
pub proof fn lemma_codec_name_case_insensitive(s: Seq<char>)
    requires
        is_ascii_text(s),
    ensures
        is_ascii_text(s.map_values(|c: char| ascii_lower(c))),
        codec_of_uppercase(s.map_values(|c: char| ascii_lower(c)).map_values(|c: char| ascii_upper(c)))
            == codec_of_uppercase(s.map_values(|c: char| ascii_upper(c))),
{
    let lower = s.map_values(|c: char| ascii_lower(c));
    assert forall|i: int| 0 <= i < lower.len() implies (#[trigger] lower[i] as u32) < 128 by {
        assert((s[i] as u32) < 128);
    }
    assert(lower.map_values(|c: char| ascii_upper(c)) =~= s.map_values(|c: char| ascii_upper(c)));
}

/// The encryption mode names Discord offers.
pub const ENCRYPTION_AES256: &'static str = "aead_aes256_gcm_rtpsize";

pub const ENCRYPTION_XCHACHA20: &'static str = "aead_xchacha20_poly1305_rtpsize";

/// The simulcast descriptor sent in IDENTIFY.
pub const STREAMS_SIMULCAST_RID: &'static str = "100";

pub const STREAMS_SIMULCAST_QUALITY: u8 = 100;

pub const MAX_INT16: u32 = 65536;

pub const MAX_INT32: u64 = 4294967296;


/// Whether `c` is an ASCII decimal digit.
pub open spec fn is_digit(c: char) -> bool {
    '0' <= c && c <= '9'
}

/// The number that a string of decimal digits writes.
pub open spec fn digits_value(s: Seq<char>) -> nat
    decreases s.len(),
{
    if s.len() == 0 {
        0
    } else {
        digits_value(s.drop_last()) * 10 + (s.last() as nat - '0' as nat) as nat
    }
}

/// Whether every character of `s` is a decimal digit.
pub open spec fn all_digits(s: Seq<char>) -> bool {
    forall|i: int| 0 <= i < s.len() ==> is_digit(#[trigger] s[i])
}

/// `s` without a leading `+`.
pub open spec fn unsigned_body(s: Seq<char>) -> Seq<char> {
    if s.len() > 0 && s[0] == '+' {
        s.drop_first()
    } else {
        s
    }
}

/// What `u64::from_str` gives for `s`: an optional `+`, then at least one decimal
/// digit and nothing else, of a value that fits in 64 bits.
pub open spec fn spec_parse_u64(s: Seq<char>) -> Option<u64> {
    let body = unsigned_body(s);
    if body.len() > 0 && all_digits(body) && digits_value(body) <= u64::MAX {
        Some(digits_value(body) as u64)
    } else {
        None
    }
}

proof fn lemma_digits_value_prefix(s: Seq<char>, i: int, j: int)
    requires
        0 <= i <= j <= s.len(),
        forall|k: int| 0 <= k < s.len() ==> is_digit(#[trigger] s[k]),
    ensures
        digits_value(s.take(i)) <= digits_value(s.take(j)),
    decreases j - i,
{
    if i < j {
        lemma_digits_value_prefix(s, i, j - 1);
        assert(s.take(j).drop_last() =~= s.take(j - 1));
        assert(is_digit(s[j - 1]));
    }
}

/// Parses a decimal `u64` as `u64::from_str` does.
pub fn parse_u64(s: &str) -> (r: Option<u64>)
    ensures
        r == spec_parse_u64(s@),
{
    let len = s.unicode_len();
    let mut start: usize = 0;
    if len > 0 && s.get_char(0) == '+' {
        start = 1;
    }
    let ghost body = unsigned_body(s@);
    proof {
        assert(body =~= s@.subrange(start as int, len as int));
    }
    if start == len {
        return None;
    }
    let mut acc: u64 = 0;
    let mut i: usize = start;
    while i < len
        invariant
            len == s@.len(),
            start <= i <= len,
            body == s@.subrange(start as int, len as int),
            body == unsigned_body(s@),
            forall|k: int| 0 <= k < i - start ==> is_digit(#[trigger] body[k]),
            acc as nat == digits_value(body.take(i - start)),
        decreases len - i,
    {
        let c = s.get_char(i);
        if c < '0' || c > '9' {
            proof {
                assert(body[i - start] == c);
                assert(!is_digit(body[i - start]));
                assert(!all_digits(body));
            }
            return None;
        }
        let d: u64 = (c as u32 - '0' as u32) as u64;
        proof {
            assert(body.take(i - start + 1).drop_last() =~= body.take(i - start));
            assert(body.take(i - start + 1).last() == c);
            assert(d as nat == (c as nat - '0' as nat) as nat);
            assert(digits_value(body.take(i - start + 1)) == acc * 10 + d);
        }
        match acc.checked_mul(10) {
            Some(m) => match m.checked_add(d) {
                Some(v) => {
                    acc = v;
                },
                None => {
                    proof {
                        lemma_value_exceeds(body, i - start + 1);
                    }
                    return None;
                },
            },
            None => {
                proof {
                    lemma_value_exceeds(body, i - start + 1);
                }
                return None;
            },
        }
        i = i + 1;
    }
    proof {
        assert(body.take(len - start) =~= body);
    }
    Some(acc)
}

/// A prefix of digits already too large makes the whole value too large, or a
/// later character is no digit.
proof fn lemma_value_exceeds(body: Seq<char>, n: int)
    requires
        0 < n <= body.len(),
        digits_value(body.take(n)) > u64::MAX,
    ensures
        !(all_digits(body) && digits_value(body) <= u64::MAX),
{
    if all_digits(body) {
        lemma_digits_value_prefix(body, n, body.len() as int);
        assert(body.take(body.len() as int) =~= body);
    }
}

} // verus!
