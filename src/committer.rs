//! The checks of the banner committer: the feature gate, the file extension,
//! the declared and streamed size of a download, and the upload's encoding.
//!
//! The network calls (fetching the guild, the image, and the commit) are
//! made by the caller, which hands each result to the checks here.
use vstd::prelude::*;

use crate::orchestrator::FailureKind;
use crate::text::{lower_of, lowercase, same_text};

verus! {

/// Maximum image size in bytes for uploads to the platform.
pub const MAXIMUM_IMAGE_SIZE: usize = 1024 * 1024 * 10;

/// Whether `features` lists `name`.
pub open spec fn has_feature(features: Seq<Seq<char>>, name: Seq<char>) -> bool {
    features.contains(name)
}

/// The views of a sequence of strings.
pub open spec fn texts_view(v: Seq<String>) -> Seq<Seq<char>> {
    v.map_values(|s: String| s@)
}

/// The feature gate, given the lower-cased file extension: the tenant needs
/// the banner feature, and for a GIF the animated-banner feature too.
pub open spec fn gate_spec(features: Seq<Seq<char>>, lowered_extension: Seq<char>) -> Result<(), FailureKind> {
    if !has_feature(features, "BANNER"@) {
        Err(FailureKind::MissingFeature)
    } else if lowered_extension == "gif"@ && !has_feature(features, "ANIMATED_BANNER"@) {
        Err(FailureKind::MissingAnimatedFeature)
    } else {
        Ok(())
    }
}

fn lists_feature(features: &Vec<String>, name: &str) -> (r: bool)
    ensures
        r == has_feature(texts_view(features@), name@),
{
    let ghost fs = texts_view(features@);
    let mut i: usize = 0;
    while i < features.len()
        invariant
            i <= features.len(),
            fs == texts_view(features@),
            forall|j: int| 0 <= j < i ==> fs[j] != name@,
        decreases features.len() - i,
    {
        if same_text(features[i].as_str(), name) {
            assert(fs[i as int] == name@);
            return true;
        }
        i = i + 1;
    }
    proof {
        if fs.contains(name@) {
            let j = choose|j: int| 0 <= j < fs.len() && fs[j] == name@;
            assert(false);
        }
    }
    false
}

/// The feature gate on an already lower-cased extension.
pub fn check_features_lowered(features: &Vec<String>, lowered_extension: &str) -> (r: Result<(), FailureKind>)
    ensures
        r == gate_spec(texts_view(features@), lowered_extension@),
{
    if !lists_feature(features, "BANNER") {
        return Err(FailureKind::MissingFeature);
    }
    if same_text(lowered_extension, "gif") && !lists_feature(features, "ANIMATED_BANNER") {
        return Err(FailureKind::MissingAnimatedFeature);
    }
    Ok(())
}

/// The feature gate for a candidate with file extension `extension`, in any
/// case.
pub fn check_features(features: &Vec<String>, extension: &str) -> (r: Result<(), FailureKind>)
    ensures
        r == gate_spec(texts_view(features@), lower_of(extension@)),
{
    let lowered = lowercase(extension);
    check_features_lowered(features, lowered.as_str())
}

/// The index of the last `c` in `s`, or -1.
pub open spec fn last_index_of(s: Seq<char>, c: char) -> int
    decreases s.len(),
{
    if s.len() == 0 {
        -1
    } else if s.last() == c {
        s.len() - 1
    } else {
        last_index_of(s.drop_last(), c)
    }
}

proof fn lemma_last_index_of(s: Seq<char>, c: char)
    ensures
        -1 <= last_index_of(s, c) < s.len(),
        last_index_of(s, c) >= 0 ==> s[last_index_of(s, c)] == c,
        forall|j: int| last_index_of(s, c) < j < s.len() ==> s[j] != c,
    decreases s.len(),
{
    if s.len() > 0 && s.last() != c {
        lemma_last_index_of(s.drop_last(), c);
        assert forall|j: int| last_index_of(s, c) < j < s.len() implies s[j] != c by {
            if j < s.len() - 1 {
                assert(s.drop_last()[j] == s[j]);
            }
        }
    }
}

/// The file extension of a URL path: the text after the last `.` of its
/// last segment, when there is such a `.` and text after it.
pub open spec fn extension_spec(path: Seq<char>) -> Option<Seq<char>> {
    let segment = path.subrange(last_index_of(path, '/') + 1, path.len() as int);
    let dot = last_index_of(segment, '.');
    if dot < 0 || dot + 1 == segment.len() {
        None
    } else {
        Some(segment.subrange(dot + 1, segment.len() as int))
    }
}

fn find_last(s: &str, from: usize, c: char) -> (r: Option<usize>)
    requires
        from <= s@.len(),
    ensures
        match r {
            Some(k) => from <= k < s@.len() && s@[k as int] == c && forall|j: int| k < j < s@.len() ==> s@[j] != c,
            None => forall|j: int| from <= j < s@.len() ==> s@[j] != c,
        },
{
    let n = s.unicode_len();
    let mut i: usize = n;
    while i > from
        invariant
            from <= i <= n,
            n == s@.len(),
            forall|j: int| i <= j < n ==> s@[j] != c,
        decreases i,
    {
        if s.get_char(i - 1) == c {
            return Some(i - 1);
        }
        i = i - 1;
    }
    None
}

/// Derives the file extension from a URL path.
pub fn file_extension(path: &str) -> (r: Option<String>)
    ensures
        match r {
            Some(e) => extension_spec(path@) == Some(e@),
            None => extension_spec(path@).is_none(),
        },
{
    let n = path.unicode_len();
    let ghost p = path@;
    proof {
        lemma_last_index_of(p, '/');
    }
    let start: usize = match find_last(path, 0, '/') {
        Some(k) => k + 1,
        None => 0,
    };
    assert(start == last_index_of(p, '/') + 1) by {
        if last_index_of(p, '/') >= 0 {
            assert(p[last_index_of(p, '/')] == '/');
        }
    };
    let ghost segment = p.subrange(start as int, n as int);
    proof {
        lemma_last_index_of(segment, '.');
    }
    match find_last(path, start, '.') {
        None => {
            assert(last_index_of(segment, '.') < 0) by {
                if last_index_of(segment, '.') >= 0 {
                    assert(segment[last_index_of(segment, '.')] == p[start + last_index_of(segment, '.')]);
                }
            };
            None
        },
        Some(k) => {
            assert(last_index_of(segment, '.') == k - start) by {
                let d = last_index_of(segment, '.');
                assert(segment[k - start] == '.');
                if d >= 0 {
                    assert(segment[d] == p[start + d]);
                }
            };
            if k + 1 == n {
                None
            } else {
                let e = path.substring_char(k + 1, n);
                assert(e@ =~= segment.subrange(k - start + 1, segment.len() as int));
                Some(e.to_string())
            }
        },
    }
}

/// What `url::Url::parse` gives as the path of a URL (`None` when the text
/// is no URL).
pub uninterp spec fn url_path_of(s: Seq<char>) -> Option<Seq<char>>;

/// Relies on `url::Url::parse` and `url::Url::path`: the path of a parsed
/// URL depends on its text alone.
#[verifier::external_body]
fn parsed_url_path(s: &str) -> (r: Option<String>)
    ensures
        match r {
            Some(p) => url_path_of(s@) == Some(p@),
            None => url_path_of(s@).is_none(),
        },
{
    match url::Url::parse(s) {
        Ok(u) => Some(u.path().to_string()),
        Err(_) => None,
    }
}

/// The file extension of the image at `url`; a URL that does not parse, or
/// whose path has no extension, is an undetermined extension.
pub fn extension_of_url(url: &str) -> (r: Result<String, FailureKind>)
    ensures
        match r {
            Ok(e) => exists|p: Seq<char>| url_path_of(url@) == Some(p) && extension_spec(p) == Some(e@),
            Err(k) => k == FailureKind::UndeterminedExtension && match url_path_of(url@) {
                Some(p) => extension_spec(p).is_none(),
                None => true,
            },
        },
{
    match parsed_url_path(url) {
        None => Err(FailureKind::UndeterminedExtension),
        Some(path) => match file_extension(path.as_str()) {
            Some(e) => Ok(e),
            None => Err(FailureKind::UndeterminedExtension),
        },
    }
}

/// The declared size check: an empty or too large declared body fails, a
/// known size is the buffer to reserve, an unknown one reserves the cap.
pub open spec fn declared_spec(content_length: Option<u64>) -> Result<usize, FailureKind> {
    match content_length {
        Some(n) => if n == 0 {
            Err(FailureKind::EmptyImage)
        } else if n >= MAXIMUM_IMAGE_SIZE {
            Err(FailureKind::OversizeImage)
        } else {
            Ok(n as usize)
        },
        None => Ok(MAXIMUM_IMAGE_SIZE),
    }
}

/// Checks the size that a response declares before its body is read.
pub fn check_content_length(content_length: Option<u64>) -> (r: Result<usize, FailureKind>)
    ensures
        r == declared_spec(content_length),
{
    match content_length {
        Some(n) => {
            if n == 0 {
                Err(FailureKind::EmptyImage)
            } else if n >= MAXIMUM_IMAGE_SIZE as u64 {
                Err(FailureKind::OversizeImage)
            } else {
                Ok(n as usize)
            }
        },
        None => Ok(MAXIMUM_IMAGE_SIZE),
    }
}

/// The failure of a download that overruns the cap: over-size when the size
/// was declared, an unknown-size overflow otherwise.
pub open spec fn overrun_kind(size_known: bool) -> FailureKind {
    if size_known {
        FailureKind::OversizeImage
    } else {
        FailureKind::UnknownSizeOverflow
    }
}

/// One streamed chunk: appended while the total stays within the cap, else
/// the download fails and nothing more is kept.
pub open spec fn push_spec(bytes: Seq<u8>, size_known: bool, chunk: Seq<u8>) -> Result<Seq<u8>, FailureKind> {
    if bytes.len() + chunk.len() > MAXIMUM_IMAGE_SIZE {
        Err(overrun_kind(size_known))
    } else {
        Ok(bytes + chunk)
    }
}

/// The download after `chunks` are streamed, in order, onto `bytes`.
pub open spec fn stream_spec(bytes: Seq<u8>, size_known: bool, chunks: Seq<Seq<u8>>) -> Result<Seq<u8>, FailureKind>
    decreases chunks.len(),
{
    if chunks.len() == 0 {
        Ok(bytes)
    } else {
        match push_spec(bytes, size_known, chunks[0]) {
            Err(k) => Err(k),
            Ok(more) => stream_spec(more, size_known, chunks.drop_first()),
        }
    }
}

/// How many bytes `chunks` hold together.
pub open spec fn total_len(chunks: Seq<Seq<u8>>) -> nat
    decreases chunks.len(),
{
    if chunks.len() == 0 {
        0
    } else {
        chunks[0].len() + total_len(chunks.drop_first())
    }
}

/// Streaming cap enforcement: a source that streams more than the cap fails
/// as over-size (when it declared a size) or as an unknown-size overflow,
/// whatever size it claimed; and what a download keeps never exceeds the cap.
pub proof fn lemma_streaming_cap(bytes: Seq<u8>, size_known: bool, chunks: Seq<Seq<u8>>)
    requires
        bytes.len() <= MAXIMUM_IMAGE_SIZE,
    ensures
        bytes.len() + total_len(chunks) > MAXIMUM_IMAGE_SIZE ==> stream_spec(bytes, size_known, chunks) == Err::<
            Seq<u8>,
            FailureKind,
        >(overrun_kind(size_known)),
        match stream_spec(bytes, size_known, chunks) {
            Ok(kept) => kept.len() == bytes.len() + total_len(chunks) && kept.len() <= MAXIMUM_IMAGE_SIZE,
            Err(k) => k == overrun_kind(size_known),
        },
    decreases chunks.len(),
{
    if chunks.len() > 0 {
        if bytes.len() + chunks[0].len() <= MAXIMUM_IMAGE_SIZE {
            lemma_streaming_cap(bytes + chunks[0], size_known, chunks.drop_first());
        }
    }
}

/// What an [`ImageDownload`] holds.
pub struct DownloadView {
    pub bytes: Seq<u8>,
    pub size_known: bool,
}

/// A download in progress, capped at [`MAXIMUM_IMAGE_SIZE`] bytes.
pub struct ImageDownload {
    bytes: Vec<u8>,
    size_known: bool,
}

impl View for ImageDownload {
    type V = DownloadView;

    closed spec fn view(&self) -> DownloadView {
        DownloadView { bytes: self.bytes@, size_known: self.size_known }
    }
}

/// The final size check on a finished download.
pub open spec fn finish_spec(bytes: Seq<u8>) -> Result<Seq<u8>, FailureKind> {
    if bytes.len() == 0 {
        Err(FailureKind::EmptyImage)
    } else if bytes.len() >= MAXIMUM_IMAGE_SIZE {
        Err(FailureKind::OversizeImage)
    } else {
        Ok(bytes)
    }
}

impl ImageDownload {
    /// Starts a download whose response declared `content_length` (if any),
    /// or fails on the declared size.
    pub fn start(content_length: Option<u64>) -> (r: Result<Self, FailureKind>)
        ensures
            match r {
                Ok(d) => declared_spec(content_length) is Ok && d@.bytes.len() == 0 && d@.size_known
                    == content_length.is_some(),
                Err(k) => declared_spec(content_length) == Err::<usize, FailureKind>(k),
            },
    {
        match check_content_length(content_length) {
            Err(k) => Err(k),
            Ok(reserve) => Ok(
                ImageDownload { bytes: Vec::with_capacity(reserve), size_known: content_length.is_some() },
            ),
        }
    }

    /// The bytes kept so far.
    pub fn len(&self) -> (r: usize)
        ensures
            r == self@.bytes.len(),
    {
        self.bytes.len()
    }

    /// Appends one streamed chunk, or fails the download the instant the cap
    /// would be exceeded, keeping nothing of the chunk.
    pub fn push_chunk(&mut self, chunk: &[u8]) -> (r: Result<(), FailureKind>)
        requires
            old(self)@.bytes.len() <= MAXIMUM_IMAGE_SIZE,
        ensures
            final(self)@.size_known == old(self)@.size_known,
            final(self)@.bytes.len() <= MAXIMUM_IMAGE_SIZE,
            match push_spec(old(self)@.bytes, old(self)@.size_known, chunk@) {
                Ok(more) => r is Ok && final(self)@.bytes == more,
                Err(k) => r == Err::<(), FailureKind>(k) && final(self)@.bytes == old(self)@.bytes,
            },
    {
        if chunk.len() > MAXIMUM_IMAGE_SIZE - self.bytes.len() {
            if self.size_known {
                return Err(FailureKind::OversizeImage);
            } else {
                return Err(FailureKind::UnknownSizeOverflow);
            }
        }
        let ghost before = self.bytes@;
        self.bytes.extend_from_slice(chunk);
        assert(self.bytes@ =~= before + chunk@);
        Ok(())
    }

    /// Ends the download: an empty body, or one that reaches the cap, fails.
    pub fn finish(self) -> (r: Result<Vec<u8>, FailureKind>)
        ensures
            match finish_spec(self@.bytes) {
                Ok(b) => r is Ok && r->Ok_0@ == b,
                Err(k) => r == Err::<Vec<u8>, FailureKind>(k),
            },
    {
        if self.bytes.len() == 0 {
            Err(FailureKind::EmptyImage)
        } else if self.bytes.len() >= MAXIMUM_IMAGE_SIZE {
            Err(FailureKind::OversizeImage)
        } else {
            Ok(self.bytes)
        }
    }
}

/// What `base64`'s standard engine makes of some bytes.
pub uninterp spec fn base64_of(bytes: Seq<u8>) -> Seq<char>;

/// Relies on `base64::Engine::encode` with the standard engine, which panics
/// only when the encoded length overflows (excluded by the size bound).
#[verifier::external_body]
fn encode_base64(bytes: &Vec<u8>) -> (r: String)
    requires
        bytes@.len() <= MAXIMUM_IMAGE_SIZE,
    ensures
        r@ == base64_of(bytes@),
{
    base64::Engine::encode(&base64::prelude::BASE64_STANDARD, bytes)
}

/// The data URI of an image with an already encoded body.
pub open spec fn data_uri_spec(extension: Seq<char>, encoded: Seq<char>) -> Seq<char> {
    "data:image/"@ + extension + ";base64,"@ + encoded
}

/// The data URI of an image, given its base64-encoded body.
pub fn data_uri_from_encoded(extension: &str, encoded: &str) -> (r: String)
    ensures
        r@ == data_uri_spec(extension@, encoded@),
{
    let mut uri = String::from_str("data:image/");
    uri.append(extension);
    uri.append(";base64,");
    uri.append(encoded);
    uri
}

/// The data URI under which an image is uploaded.
pub fn image_data_uri(extension: &str, bytes: &Vec<u8>) -> (r: String)
    requires
        bytes@.len() <= MAXIMUM_IMAGE_SIZE,
    ensures
        r@ == data_uri_spec(extension@, base64_of(bytes@)),
{
    let encoded = encode_base64(bytes);
    data_uri_from_encoded(extension, encoded.as_str())
}

/// What `url::Url::parse` and `Url::query_pairs` give as the decoded query
/// pairs of a URL, in order (`None` when the text is no URL).
pub uninterp spec fn query_pairs_of(s: Seq<char>) -> Option<Seq<(Seq<char>, Seq<char>)>>;

/// Relies on `url::Url::parse` and `url::Url::query_pairs`: the decoded
/// pairs depend on the URL's text alone.
#[verifier::external_body]
fn parsed_query_pairs(s: &str) -> (r: Option<Vec<(String, String)>>)
    ensures
        match r {
            Some(v) => query_pairs_of(s@) == Some(v@.map_values(|p: (String, String)| (p.0@, p.1@))),
            None => query_pairs_of(s@).is_none(),
        },
{
    match url::Url::parse(s) {
        Ok(u) => Some(u.query_pairs().map(|(k, v)| (k.into_owned(), v.into_owned())).collect()),
        Err(_) => None,
    }
}

/// What `url::Url::parse`, then `Url::query_pairs_mut` with `clear` and
/// `extend_pairs`, makes of a URL and a list of pairs (`None` when the text
/// is no URL).
pub uninterp spec fn with_query_of(s: Seq<char>, pairs: Seq<(Seq<char>, Seq<char>)>) -> Option<Seq<char>>;

/// Relies on `url::Url::parse` and `url::Url::query_pairs_mut`: the URL with
/// its query replaced by `pairs` depends on the URL's text and the pairs
/// alone.
#[verifier::external_body]
fn replace_query(s: &str, pairs: &Vec<(String, String)>) -> (r: Option<String>)
    ensures
        match r {
            Some(t) => with_query_of(s@, pairs@.map_values(|p: (String, String)| (p.0@, p.1@))) == Some(t@),
            None => with_query_of(s@, pairs@.map_values(|p: (String, String)| (p.0@, p.1@))).is_none(),
        },
{
    match url::Url::parse(s) {
        Ok(mut u) => {
            u.query_pairs_mut().clear().extend_pairs(pairs.iter().map(|(k, v)| (k.as_str(), v.as_str()))).finish();
            Some(u.as_str().to_string())
        },
        Err(_) => None,
    }
}

/// The value of the last pair of `pairs` named `key`.
pub open spec fn last_value(pairs: Seq<(Seq<char>, Seq<char>)>, key: Seq<char>) -> Option<Seq<char>>
    decreases pairs.len(),
{
    if pairs.len() == 0 {
        None
    } else if pairs.last().0 == key {
        Some(pairs.last().1)
    } else {
        last_value(pairs.drop_last(), key)
    }
}

/// `pairs` with the pair `(key, v)` appended when `v` is set.
pub open spec fn push_if(pairs: Seq<(Seq<char>, Seq<char>)>, key: Seq<char>, v: Option<Seq<char>>) -> Seq<(Seq<char>, Seq<char>)> {
    match v {
        Some(v) => pairs.push((key, v)),
        None => pairs,
    }
}

/// The query under which an image is requested from the CDN: the last
/// value of each of its signature parameters `ex`, `is` and `hm`, then the
/// size 960 by 540.
pub open spec fn resized_query_spec(pairs: Seq<(Seq<char>, Seq<char>)>) -> Seq<(Seq<char>, Seq<char>)> {
    push_if(push_if(push_if(Seq::empty(), "ex"@, last_value(pairs, "ex"@)), "is"@, last_value(pairs, "is"@)), "hm"@, last_value(pairs, "hm"@))
        .push(("width"@, "960"@)).push(("height"@, "540"@))
}

fn last_pair_value(pairs: &Vec<(String, String)>, key: &str) -> (r: Option<String>)
    ensures
        match r {
            Some(v) => last_value(pairs@.map_values(|p: (String, String)| (p.0@, p.1@)), key@) == Some(v@),
            None => last_value(pairs@.map_values(|p: (String, String)| (p.0@, p.1@)), key@).is_none(),
        },
{
    let ghost ps = pairs@.map_values(|p: (String, String)| (p.0@, p.1@));
    let mut found: Option<String> = None;
    let mut i: usize = 0;
    while i < pairs.len()
        invariant
            i <= pairs.len(),
            ps == pairs@.map_values(|p: (String, String)| (p.0@, p.1@)),
            match found {
                Some(v) => last_value(ps.subrange(0, i as int), key@) == Some(v@),
                None => last_value(ps.subrange(0, i as int), key@).is_none(),
            },
        decreases pairs.len() - i,
    {
        let ghost next = ps.subrange(0, i + 1);
        assert(next.drop_last() =~= ps.subrange(0, i as int));
        if same_text(pairs[i].0.as_str(), key) {
            found = Some(pairs[i].1.clone());
        }
        i = i + 1;
    }
    assert(ps.subrange(0, i as int) =~= ps);
    found
}

/// The query pairs under which an image is requested from the CDN, given
/// its current ones.
pub fn resized_query(pairs: &Vec<(String, String)>) -> (r: Vec<(String, String)>)
    ensures
        r@.map_values(|p: (String, String)| (p.0@, p.1@)) == resized_query_spec(
            pairs@.map_values(|p: (String, String)| (p.0@, p.1@)),
        ),
{
    let mut out: Vec<(String, String)> = Vec::new();
    let ghost ps = pairs@.map_values(|p: (String, String)| (p.0@, p.1@));
    let ghost mut model: Seq<(Seq<char>, Seq<char>)> = Seq::empty();
    assert(out@.map_values(|p: (String, String)| (p.0@, p.1@)) =~= model);
    if let Some(v) = last_pair_value(pairs, "ex") {
        out.push((String::from_str("ex"), v));
    }
    proof {
        model = push_if(model, "ex"@, last_value(ps, "ex"@));
    }
    assert(out@.map_values(|p: (String, String)| (p.0@, p.1@)) =~= model);
    if let Some(v) = last_pair_value(pairs, "is") {
        out.push((String::from_str("is"), v));
    }
    proof {
        model = push_if(model, "is"@, last_value(ps, "is"@));
    }
    assert(out@.map_values(|p: (String, String)| (p.0@, p.1@)) =~= model);
    if let Some(v) = last_pair_value(pairs, "hm") {
        out.push((String::from_str("hm"), v));
    }
    proof {
        model = push_if(model, "hm"@, last_value(ps, "hm"@));
    }
    assert(out@.map_values(|p: (String, String)| (p.0@, p.1@)) =~= model);
    out.push((String::from_str("width"), String::from_str("960")));
    out.push((String::from_str("height"), String::from_str("540")));
    assert(out@.map_values(|p: (String, String)| (p.0@, p.1@)) =~= model.push(("width"@, "960"@)).push(
        ("height"@, "540"@),
    ));
    out
}

/// The URL under which the image at `url` is requested: its query replaced
/// by [`resized_query_spec`] of the current one (`None` when `url` is no URL).
pub fn resized_image_url(url: &str) -> (r: Option<String>)
    ensures
        match query_pairs_of(url@) {
            None => r is None,
            Some(ps) => match r {
                Some(t) => with_query_of(url@, resized_query_spec(ps)) == Some(t@),
                None => with_query_of(url@, resized_query_spec(ps)).is_none(),
            },
        },
{
    match parsed_query_pairs(url) {
        None => None,
        Some(pairs) => {
            let query = resized_query(&pairs);
            replace_query(url, &query)
        },
    }
}

} // verus!
