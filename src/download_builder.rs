//! The choices a user makes, and the `yt-dlp` command line they turn into.
use vstd::prelude::*;

use crate::text::{lines, same_text, split_lines, trim, trimmed, views};

verus! {

/// Which streams are requested.
#[derive(Clone, Copy, Debug, PartialEq, Eq, Structural)]
pub enum DownloadType {
    VideoWithAudio,
    VideoOnly,
    Audio,
}

/// The ceiling on the height, in pixels, of a video stream.
#[derive(Clone, Copy, Debug, PartialEq, Eq, Structural)]
pub enum DownloadQuality {
    P360,
    P480,
    P720,
    P1024,
    P2048,
}

/// What is wrong with the choices a user made.
#[derive(Clone, Copy, Debug, PartialEq, Eq, Structural)]
pub enum ValidationError {
    /// No address was given.
    NoUrls,
    /// The list does not match the address-list pattern: each line must start with
    /// `http://` or `https://`, then one character that is neither white space nor
    /// one of `/$.?#`, then any one character but a line feed, then characters that
    /// are not white space.
    MalformedUrls,
    /// No download type was chosen.
    MissingDownloadType,
    /// No quality was chosen for a video download that requires one.
    MissingQuality,
}

impl DownloadType {
    /// The text a user picks this type by.
    pub open spec fn label(self) -> Seq<char> {
        match self {
            DownloadType::VideoWithAudio => "video(s) with audio"@,
            DownloadType::VideoOnly => "video(s) without audio"@,
            DownloadType::Audio => "audio(s) only"@,
        }
    }

    /// The labels, in the order they are offered.
    pub open spec fn labels() -> Seq<Seq<char>> {
        seq![
            DownloadType::VideoWithAudio.label(),
            DownloadType::VideoOnly.label(),
            DownloadType::Audio.label(),
        ]
    }

    /// The type whose label is `s`; no type has the label of another.
    pub open spec fn of_label(s: Seq<char>) -> Result<DownloadType, ValidationError> {
        if s == DownloadType::VideoWithAudio.label() {
            Ok(DownloadType::VideoWithAudio)
        } else if s == DownloadType::VideoOnly.label() {
            Ok(DownloadType::VideoOnly)
        } else if s == DownloadType::Audio.label() {
            Ok(DownloadType::Audio)
        } else {
            Err(ValidationError::MissingDownloadType)
        }
    }

    /// The labels a user chooses from.
    pub fn options() -> (r: Vec<String>)
        ensures
            views(r@) == Self::labels(),
    {
        let mut r: Vec<String> = Vec::new();
        r.push(String::from_str("video(s) with audio"));
        r.push(String::from_str("video(s) without audio"));
        r.push(String::from_str("audio(s) only"));
        assert(views(r@) =~= Self::labels());
        r
    }

    /// The type a label stands for; any other text is refused.
    pub fn from_option(option: &str) -> (r: Result<Self, ValidationError>)
        ensures
            r == Self::of_label(option@),
    {
        if same_text(option, "video(s) with audio") {
            Ok(DownloadType::VideoWithAudio)
        } else if same_text(option, "video(s) without audio") {
            Ok(DownloadType::VideoOnly)
        } else if same_text(option, "audio(s) only") {
            Ok(DownloadType::Audio)
        } else {
            Err(ValidationError::MissingDownloadType)
        }
    }
}

impl DownloadQuality {
    /// The height ceiling in decimal digits.
    pub open spec fn height(self) -> Seq<char> {
        match self {
            DownloadQuality::P360 => "360"@,
            DownloadQuality::P480 => "480"@,
            DownloadQuality::P720 => "720"@,
            DownloadQuality::P1024 => "1024"@,
            DownloadQuality::P2048 => "2048"@,
        }
    }

    /// The text a user picks this quality by.
    pub open spec fn label(self) -> Seq<char> {
        match self {
            DownloadQuality::P360 => "360p"@,
            DownloadQuality::P480 => "480p"@,
            DownloadQuality::P720 => "720p"@,
            DownloadQuality::P1024 => "1024p"@,
            DownloadQuality::P2048 => "2048p"@,
        }
    }

    /// The labels, in the order they are offered.
    pub open spec fn labels() -> Seq<Seq<char>> {
        seq![
            DownloadQuality::P360.label(),
            DownloadQuality::P480.label(),
            DownloadQuality::P720.label(),
            DownloadQuality::P1024.label(),
            DownloadQuality::P2048.label(),
        ]
    }

    /// The quality whose label is `s`; no quality has the label of another.
    pub open spec fn of_label(s: Seq<char>) -> Result<DownloadQuality, ValidationError> {
        if s == DownloadQuality::P360.label() {
            Ok(DownloadQuality::P360)
        } else if s == DownloadQuality::P480.label() {
            Ok(DownloadQuality::P480)
        } else if s == DownloadQuality::P720.label() {
            Ok(DownloadQuality::P720)
        } else if s == DownloadQuality::P1024.label() {
            Ok(DownloadQuality::P1024)
        } else if s == DownloadQuality::P2048.label() {
            Ok(DownloadQuality::P2048)
        } else {
            Err(ValidationError::MissingQuality)
        }
    }

    /// The labels a user chooses from.
    pub fn options() -> (r: Vec<String>)
        ensures
            views(r@) == Self::labels(),
    {
        let mut r: Vec<String> = Vec::new();
        r.push(String::from_str("360p"));
        r.push(String::from_str("480p"));
        r.push(String::from_str("720p"));
        r.push(String::from_str("1024p"));
        r.push(String::from_str("2048p"));
        assert(views(r@) =~= Self::labels());
        r
    }

    /// The quality a label stands for; any other text is refused.
    pub fn from_option(option: &str) -> (r: Result<Self, ValidationError>)
        ensures
            r == Self::of_label(option@),
    {
        if same_text(option, "360p") {
            Ok(DownloadQuality::P360)
        } else if same_text(option, "480p") {
            Ok(DownloadQuality::P480)
        } else if same_text(option, "720p") {
            Ok(DownloadQuality::P720)
        } else if same_text(option, "1024p") {
            Ok(DownloadQuality::P1024)
        } else if same_text(option, "2048p") {
            Ok(DownloadQuality::P2048)
        } else {
            Err(ValidationError::MissingQuality)
        }
    }

    /// The height ceiling in decimal digits.
    pub fn to_str(&self) -> (r: String)
        ensures
            r@ == self.height(),
    {
        match self {
            DownloadQuality::P360 => String::from_str("360"),
            DownloadQuality::P480 => String::from_str("480"),
            DownloadQuality::P720 => String::from_str("720"),
            DownloadQuality::P1024 => String::from_str("1024"),
            DownloadQuality::P2048 => String::from_str("2048"),
        }
    }
}

/// The `--format` selector for a download type and an optional quality ceiling.
pub open spec fn format_spec(t: DownloadType, q: Option<DownloadQuality>) -> Seq<char> {
    match t {
        DownloadType::VideoWithAudio => match q {
            Some(q) => "bv*[height<="@ + q.height() + "]+ba/b[height<="@ + q.height() + "]"@,
            None => "bv*+ba/b"@,
        },
        DownloadType::VideoOnly => match q {
            Some(q) => "bv*[height<="@ + q.height() + "]"@,
            None => "bv"@,
        },
        DownloadType::Audio => "ba"@,
    }
}

/// The flag that turns simulation on or off.
pub open spec fn simulate_flag(simulate: bool) -> Seq<char> {
    if simulate {
        "--simulate"@
    } else {
        "--no-simulate"@
    }
}

/// The fields that `yt-dlp` prints for each item, one per line, in this order.
pub open spec fn print_fields() -> Seq<char> {
    "id,title,filesize_approx,duration_string"@
}

/// The flags that convert to a chosen extension: audio is extracted, video remuxed.
pub open spec fn extension_args(t: DownloadType, extension: Option<Seq<char>>) -> Seq<Seq<char>> {
    match extension {
        None => Seq::empty(),
        Some(e) => if t == DownloadType::Audio {
            seq!["-x"@, "--audio-format"@, e]
        } else {
            seq!["--remux-video"@, e]
        },
    }
}

/// What a builder holds.
pub struct BuilderState {
    pub simulate: bool,
    pub download_type: Option<DownloadType>,
    pub quality: Option<DownloadQuality>,
    pub extension: Option<Seq<char>>,
    pub urls: Seq<Seq<char>>,
    /// Whether a video download must have a quality.
    pub require_quality: bool,
}

/// The command line for a state whose download type is `t`.
pub open spec fn args_for(st: BuilderState, t: DownloadType) -> Seq<Seq<char>> {
    seq![
        simulate_flag(st.simulate),
        "--no-abort-on-error"@,
        "-o"@,
        "%(title)s.%(ext)s"@,
        "--print"@,
        print_fields(),
        "--format"@,
        format_spec(t, st.quality),
    ] + extension_args(t, st.extension) + st.urls
}

/// What building from a state gives: the first problem found, or the command line.
pub open spec fn build_outcome(st: BuilderState) -> Result<Seq<Seq<char>>, ValidationError> {
    match st.download_type {
        None => Err(ValidationError::MissingDownloadType),
        Some(t) => if st.urls.len() == 0 {
            Err(ValidationError::NoUrls)
        } else if st.require_quality && t != DownloadType::Audio && st.quality is None {
            Err(ValidationError::MissingQuality)
        } else {
            Ok(args_for(st, t))
        },
    }
}

/// The views of a built command line, or its error.
pub open spec fn outcome_view(r: Result<Vec<String>, ValidationError>) -> Result<
    Seq<Seq<char>>,
    ValidationError,
> {
    match r {
        Ok(v) => Ok(views(v@)),
        Err(e) => Err(e),
    }
}

/// A comment line: one that begins with `#`.
pub open spec fn is_comment(line: Seq<char>) -> bool {
    line.len() > 0 && line[0] == '#'
}

/// The lines that are not comments, trimmed.
pub open spec fn url_lines(ls: Seq<Seq<char>>) -> Seq<Seq<char>>
    decreases ls.len(),
{
    if ls.len() == 0 {
        Seq::empty()
    } else if is_comment(ls.last()) {
        url_lines(ls.drop_last())
    } else {
        url_lines(ls.drop_last()).push(trim(ls.last()))
    }
}

/// The lines joined with line feeds between them.
pub open spec fn join_lines(ls: Seq<Seq<char>>) -> Seq<char>
    decreases ls.len(),
{
    if ls.len() == 0 {
        Seq::empty()
    } else if ls.len() == 1 {
        ls[0]
    } else {
        join_lines(ls.drop_last()) + seq!['\n'] + ls.last()
    }
}

/// A user's address list without its comment lines, each line trimmed.
pub open spec fn cleaned_urls(text: Seq<char>) -> Seq<char> {
    join_lines(url_lines(lines(text)))
}

/// Whether `text` is one or more `http://` or `https://` addresses, one per line, as
/// the pattern `^(https?://[^\s/$.?#].[^\s]*\n?)+$` decides.
pub uninterp spec fn url_list_matches(text: Seq<char>) -> bool;

/// Relies on `regex::Regex::new` to compile the address-list pattern and on
/// `regex::Regex::is_match` to test `text` against it.
#[verifier::external_body]
fn matches_url_list(text: &str) -> (r: bool)
    ensures
        r == url_list_matches(text@),
{
    match regex::Regex::new(r"^(https?://[^\s/$.?#].[^\s]*\n?)+$") {
        Ok(re) => re.is_match(text),
        Err(_) => false,
    }
}

/// The addresses kept from a cleaned list, given whether it is well formed.
pub open spec fn accepted_urls(cleaned: Seq<char>, well_formed: bool) -> Result<
    Seq<Seq<char>>,
    ValidationError,
> {
    if cleaned.len() == 0 {
        Err(ValidationError::NoUrls)
    } else if !well_formed {
        Err(ValidationError::MalformedUrls)
    } else {
        Ok(lines(cleaned))
    }
}

/// The addresses kept from a user's list, or why it is refused.
pub open spec fn urls_outcome(text: Seq<char>) -> Result<Seq<Seq<char>>, ValidationError> {
    accepted_urls(cleaned_urls(text), url_list_matches(cleaned_urls(text)))
}

/// A user's address list without its comment lines, each line trimmed and the
/// lines joined by line feeds.
pub fn clean_urls(text: &str) -> (r: String)
    ensures
        r@ == cleaned_urls(text@),
{
    let ls = split_lines(text);
    let ghost all = views(ls@);
    let mut acc = String::new();
    let mut any_kept = false;
    let mut k: usize = 0;
    assert(all.take(0) =~= Seq::<Seq<char>>::empty());
    while k < ls.len()
        invariant
            all == views(ls@),
            k <= ls.len(),
            any_kept == (url_lines(all.take(k as int)).len() > 0),
            acc@ == join_lines(url_lines(all.take(k as int))),
        decreases ls.len() - k,
    {
        assert(all.take(k + 1).drop_last() =~= all.take(k as int));
        let line = ls[k].as_str();
        let first = if line.unicode_len() > 0 {
            Some(line.get_char(0))
        } else {
            None
        };
        if first != Some('#') {
            let t = trimmed(line);
            let ghost before = acc@;
            if any_kept {
                acc.append("\n");
            }
            acc.append(t.as_str());
            proof {
                reveal_strlit("\n");
                let now = url_lines(all.take(k + 1));
                assert(now.drop_last() =~= url_lines(all.take(k as int)));
                if any_kept {
                    assert(acc@ =~= before + seq!['\n'] + t@);
                } else {
                    assert(acc@ =~= t@);
                }
            }
            any_kept = true;
        }
        k = k + 1;
    }
    assert(all.take(k as int) =~= all);
    acc
}

/// Collects a user's choices and turns them into the arguments of `yt-dlp`.
///
/// A new builder does not simulate and does not require a quality.
#[derive(Debug)]
pub struct DownloadBuilder {
    simulate: bool,
    download_type: Option<DownloadType>,
    quality: Option<DownloadQuality>,
    urls: Vec<String>,
    extension: Option<String>,
    require_quality: bool,
}

impl View for DownloadBuilder {
    type V = BuilderState;

    closed spec fn view(&self) -> BuilderState {
        BuilderState {
            simulate: self.simulate,
            download_type: self.download_type,
            quality: self.quality,
            extension: match self.extension {
                Some(e) => Some(e@),
                None => None,
            },
            urls: views(self.urls@),
            require_quality: self.require_quality,
        }
    }
}

/// The `--format` selector for a download type and an optional quality ceiling.
pub fn format_selector(t: DownloadType, quality: Option<DownloadQuality>) -> (r: String)
    ensures
        r@ == format_spec(t, quality),
{
    match t {
        DownloadType::VideoWithAudio => match quality {
            Some(q) => {
                let h = q.to_str();
                let mut f = String::from_str("bv*[height<=");
                f.append(h.as_str());
                f.append("]+ba/b[height<=");
                f.append(h.as_str());
                f.append("]");
                f
            },
            None => String::from_str("bv*+ba/b"),
        },
        DownloadType::VideoOnly => match quality {
            Some(q) => {
                let h = q.to_str();
                let mut f = String::from_str("bv*[height<=");
                f.append(h.as_str());
                f.append("]");
                f
            },
            None => String::from_str("bv"),
        },
        DownloadType::Audio => String::from_str("ba"),
    }
}

impl DownloadBuilder {
    /// An empty builder: no simulation, nothing chosen, no quality required.
    pub fn new() -> (r: Self)
        ensures
            r@ == (BuilderState {
                simulate: false,
                download_type: None,
                quality: None,
                extension: None,
                urls: Seq::empty(),
                require_quality: false,
            }),
    {
        let r = DownloadBuilder {
            simulate: false,
            download_type: None,
            quality: None,
            urls: Vec::new(),
            extension: None,
            require_quality: false,
        };
        assert(views(r.urls@) =~= Seq::empty());
        r
    }

    /// Turns the downloader's simulation mode on or off.
    pub fn simulate(&mut self, simulate: bool) -> (r: &mut Self)
        ensures
            (*r)@ == (BuilderState { simulate, ..old(self)@ }),
            *final(self) == *final(r),
    {
        self.simulate = simulate;
        self
    }

    /// Chooses the download type.
    pub fn download_type(&mut self, download_type: DownloadType) -> (r: &mut Self)
        ensures
            (*r)@ == (BuilderState { download_type: Some(download_type), ..old(self)@ }),
            *final(self) == *final(r),
    {
        self.download_type = Some(download_type);
        self
    }

    /// Chooses the quality ceiling.
    pub fn quality(&mut self, quality: DownloadQuality) -> (r: &mut Self)
        ensures
            (*r)@ == (BuilderState { quality: Some(quality), ..old(self)@ }),
            *final(self) == *final(r),
    {
        self.quality = Some(quality);
        self
    }

    /// Chooses the extension the download is converted to.
    pub fn extension(&mut self, extension: String) -> (r: &mut Self)
        ensures
            (*r)@ == (BuilderState { extension: Some(extension@), ..old(self)@ }),
            *final(self) == *final(r),
    {
        self.extension = Some(extension);
        self
    }

    /// Makes a quality mandatory, or not, for video downloads.
    pub fn require_quality(&mut self, required: bool) -> (r: &mut Self)
        ensures
            (*r)@ == (BuilderState { require_quality: required, ..old(self)@ }),
            *final(self) == *final(r),
    {
        self.require_quality = required;
        self
    }

    /// Keeps the addresses of a cleaned list (see `clean_urls`) when it holds some
    /// and `well_formed` says it matches the address-list pattern; else refuses it
    /// and leaves the builder as it was.
    pub fn accept_urls(&mut self, cleaned: &str, well_formed: bool) -> (r: Result<
        (),
        ValidationError,
    >)
        ensures
            match r {
                Ok(()) => accepted_urls(cleaned@, well_formed) == Ok::<_, ValidationError>(
                    final(self)@.urls,
                ) && final(self)@ == (BuilderState { urls: final(self)@.urls, ..old(self)@ }),
                Err(e) => accepted_urls(cleaned@, well_formed) == Err::<Seq<Seq<char>>, _>(e)
                    && final(self)@ == old(self)@,
            },
    {
        if cleaned.unicode_len() == 0 {
            return Err(ValidationError::NoUrls);
        }
        if !well_formed {
            return Err(ValidationError::MalformedUrls);
        }
        self.urls = split_lines(cleaned);
        Ok(())
    }

    /// Takes the addresses a user typed, one per line; lines that begin with `#`
    /// are comments. Refuses a list with no address and one that does not match the
    /// address-list pattern (see `ValidationError::MalformedUrls`), leaving the builder
    /// as it was.
    pub fn urls(&mut self, urls: &str) -> (r: Result<(), ValidationError>)
        ensures
            match r {
                Ok(()) => urls_outcome(urls@) == Ok::<_, ValidationError>(final(self)@.urls)
                    && final(self)@ == (BuilderState { urls: final(self)@.urls, ..old(self)@ }),
                Err(e) => urls_outcome(urls@) == Err::<Seq<Seq<char>>, _>(e) && final(self)@
                    == old(self)@,
            },
    {
        let cleaned = clean_urls(urls);
        let well_formed = matches_url_list(cleaned.as_str());
        self.accept_urls(cleaned.as_str(), well_formed)
    }

    /// The arguments of `yt-dlp`, in their fixed order, or the first problem with
    /// the choices: no download type, then no address, then a missing quality.
    pub fn build(self) -> (r: Result<Vec<String>, ValidationError>)
        ensures
            outcome_view(r) == build_outcome(self@),
    {
        let t = match self.download_type {
            Some(t) => t,
            None => {
                return Err(ValidationError::MissingDownloadType);
            },
        };
        if self.urls.len() == 0 {
            return Err(ValidationError::NoUrls);
        }
        if self.require_quality && t != DownloadType::Audio && self.quality.is_none() {
            return Err(ValidationError::MissingQuality);
        }
        let mut out: Vec<String> = Vec::new();
        if self.simulate {
            out.push(String::from_str("--simulate"));
        } else {
            out.push(String::from_str("--no-simulate"));
        }
        out.push(String::from_str("--no-abort-on-error"));
        out.push(String::from_str("-o"));
        out.push(String::from_str("%(title)s.%(ext)s"));
        out.push(String::from_str("--print"));
        out.push(String::from_str("id,title,filesize_approx,duration_string"));
        out.push(String::from_str("--format"));
        out.push(format_selector(t, self.quality));
        let ghost head = views(out@);
        match self.extension {
            Some(ext) => {
                if t == DownloadType::Audio {
                    out.push(String::from_str("-x"));
                    out.push(String::from_str("--audio-format"));
                } else {
                    out.push(String::from_str("--remux-video"));
                }
                out.push(ext);
            },
            None => {},
        }
        let ghost fixed = views(out@);
        assert(fixed =~= head + extension_args(t, self@.extension));
        let mut i: usize = 0;
        while i < self.urls.len()
            invariant
                i <= self.urls.len(),
                views(out@) =~= fixed + views(self.urls@).take(i as int),
            decreases self.urls.len() - i,
        {
            let ghost prev = views(out@);
            out.push(self.urls[i].clone());
            assert(views(out@) =~= prev.push(self.urls@[i as int]@));
            assert(views(self.urls@).take(i + 1) =~= views(self.urls@).take(i as int).push(
                self.urls@[i as int]@,
            ));
            i = i + 1;
        }
        assert(views(self.urls@).take(i as int) =~= views(self.urls@));
        assert(views(out@) =~= args_for(self@, t));
        Ok(out)
    }
}

/// Building is a function of the choices alone: two builders that hold the same
/// simulation flag, download type, quality, extension, addresses and quality
/// requirement build the same command line, or fail the same way.
pub proof fn lemma_build_deterministic(a: BuilderState, b: BuilderState)
    requires
        a.simulate == b.simulate,
        a.download_type == b.download_type,
        a.quality == b.quality,
        a.extension == b.extension,
        a.urls == b.urls,
        a.require_quality == b.require_quality,
    ensures
        build_outcome(a) == build_outcome(b),
        build_succeeds(a) ==> build_outcome(a) is Ok,
{
    assert(a == b);
}

/// Whether a state has what building needs: a download type, an address, and a
/// quality where the state requires one.
pub open spec fn build_succeeds(st: BuilderState) -> bool {
    &&& st.download_type is Some
    &&& st.urls.len() > 0
    &&& (st.require_quality && st.download_type != Some(DownloadType::Audio) ==> st.quality
        is Some)
}

/// Every command line that is built asks `yt-dlp` to print exactly the fields
/// `id,title,filesize_approx,duration_string`, in that order, right after `--print`;
/// and one is built whenever the state has what building needs.
pub proof fn lemma_print_fields_fixed(st: BuilderState)
    ensures
        build_succeeds(st) ==> build_outcome(st) is Ok,
        build_outcome(st) matches Ok(args) ==> args[4] == "--print"@ && args[5]
            == print_fields(),
{
}

/// Without a download type, building fails for that reason, whatever else is set.
pub proof fn lemma_missing_type_first(st: BuilderState)
    requires
        st.download_type is None,
    ensures
        build_outcome(st) == Err::<Seq<Seq<char>>, _>(ValidationError::MissingDownloadType),
{
}

/// An audio download selects the best audio stream, whatever the quality.
pub proof fn lemma_audio_ignores_quality(q: Option<DownloadQuality>)
    ensures
        format_spec(DownloadType::Audio, q) == "ba"@,
{
}

/// A comment line changes nothing, wherever it stands among the lines.
pub proof fn lemma_comment_ignored(before: Seq<Seq<char>>, comment: Seq<char>, after: Seq<Seq<char>>)
    requires
        is_comment(comment),
    ensures
        url_lines(before.push(comment) + after) == url_lines(before + after),
    decreases after.len(),
{
    if after.len() == 0 {
        assert(before.push(comment) + after =~= before.push(comment));
        assert(before.push(comment).drop_last() =~= before);
        assert(before + after =~= before);
    } else {
        let rest = after.drop_last();
        lemma_comment_ignored(before, comment, rest);
        assert((before.push(comment) + after).drop_last() =~= before.push(comment) + rest);
        assert((before + after).drop_last() =~= before + rest);
    }
}

/// Each download type is read back from its own label.
pub proof fn lemma_type_label_round_trip(t: DownloadType)
    ensures
        DownloadType::of_label(t.label()) == Ok::<_, ValidationError>(t),
{
    reveal_strlit("video(s) with audio");
    reveal_strlit("video(s) without audio");
    reveal_strlit("audio(s) only");
    assert(DownloadType::VideoWithAudio.label().len() != DownloadType::VideoOnly.label().len());
    assert(DownloadType::VideoWithAudio.label().len() != DownloadType::Audio.label().len());
    assert(DownloadType::VideoOnly.label().len() != DownloadType::Audio.label().len());
}

/// Each quality is read back from its own label.
pub proof fn lemma_quality_label_round_trip(q: DownloadQuality)
    ensures
        DownloadQuality::of_label(q.label()) == Ok::<_, ValidationError>(q),
{
    reveal_strlit("360p");
    reveal_strlit("480p");
    reveal_strlit("720p");
    reveal_strlit("1024p");
    reveal_strlit("2048p");
    assert(DownloadQuality::P360.label()[0] != DownloadQuality::P480.label()[0]);
    assert(DownloadQuality::P360.label()[0] != DownloadQuality::P720.label()[0]);
    assert(DownloadQuality::P480.label()[0] != DownloadQuality::P720.label()[0]);
    assert(DownloadQuality::P1024.label()[0] != DownloadQuality::P2048.label()[0]);
    assert(DownloadQuality::P360.label().len() != DownloadQuality::P1024.label().len());
    assert(DownloadQuality::P360.label().len() != DownloadQuality::P2048.label().len());
    assert(DownloadQuality::P480.label().len() != DownloadQuality::P1024.label().len());
    assert(DownloadQuality::P480.label().len() != DownloadQuality::P2048.label().len());
    assert(DownloadQuality::P720.label().len() != DownloadQuality::P1024.label().len());
    assert(DownloadQuality::P720.label().len() != DownloadQuality::P2048.label().len());
}

} // verus!
