//! Speech synthesis: the voices on offer, how a text is cut to the size
//! that a service takes, what is asked of the service for each piece, and
//! how its answers are read.

use vstd::prelude::*;
use vstd::string::StringExecFns;
use vstd::utf8::{encode_utf8, is_char_boundary};

verus! {

/// The error type of the decoder of the `base64` crate.
#[verifier::external_type_specification]
#[verifier::external_body]
pub struct ExDecodeError(base64::DecodeError);

/// A voice: language, country, service and speaker.
#[derive(Debug, Clone, Copy, PartialEq, Eq)]
pub enum Voices {
    DeDETiktokFemale,
    DeDETiktokMale,
    EnAUPollyNicole,
    EnAUPollyRussell,
    EnAUTiktokFemale,
    EnAUTiktokMale,
    EnINPollyRaveena,
    EnUKPollyAmy,
    EnUKPollyBrian,
    EnUKPollyEmma,
    EnUKTiktokMale1,
    EnUKTiktokMale2,
    EnUSPollyIvy,
    EnUSPollyJoanna,
    EnUSPollyJoey,
    EnUSPollyJustin,
    EnUSPollyKendra,
    EnUSPollyKimberly,
    EnUSPollyMatthew,
    EnUSPollySalli,
    EnUSTiktokC3PO,
    EnUSTiktokChewbacca,
    EnUSTiktokFemale1,
    EnUSTiktokFemale2,
    EnUSTiktokGhostface,
    EnUSTiktokMale1,
    EnUSTiktokMale2,
    EnUSTiktokMale3,
    EnUSTiktokRocket,
    EnUSTiktokStitch,
    EnUSTiktokStormtrooper,
    EnUSTiktokUnknown,
    EnWelshPollyGeraint,
    EsESTiktokMale,
    EsMXTiktokMale,
    FrFRTiktokMale1,
    FrFRTiktokMale2,
    IdIdTiktokFemale,
    JpJPTiktokFemale1,
    JpJPTiktokFemale2,
    JpJPTiktokFemale3,
    JpJPTiktokMale,
    KrKRTiktokFemale,
    KrKRTiktokMale1,
    KrKRTiktokMale2,
    PtBRTiktokFemale1,
    PtBRTiktokFemale2,
    PtBRTiktokFemale3,
    PtBRTiktokMale,
}

/// A speech service.
#[derive(Debug, Clone, Copy, PartialEq, Eq)]
pub enum Service {
    Tiktok,
    Polly,
}

/// Why a service gave no audio.
#[derive(Debug, Clone, PartialEq, Eq)]
pub enum SpeechError {
    /// The service refused, with this message.
    Refused { message: String },
    /// The service reported no success and gave no reason.
    Failed,
    /// The audio that the service sent is no base64 text.
    Encoding,
}

/// Mathematical view of [`SpeechError`].
pub enum SpeechErrorView {
    Refused { message: Seq<char> },
    Failed,
    Encoding,
}

impl View for SpeechError {
    type V = SpeechErrorView;

    open spec fn view(&self) -> SpeechErrorView {
        match *self {
            SpeechError::Refused { message } => SpeechErrorView::Refused { message: message@ },
            SpeechError::Failed => SpeechErrorView::Failed,
            SpeechError::Encoding => SpeechErrorView::Encoding,
        }
    }
}

/// What is asked of a service for one piece of text.
#[derive(Debug, Clone, PartialEq, Eq)]
pub struct SpeechRequest {
    /// The service that is asked.
    pub service: Service,
    /// Whether the request goes through the proxy.
    pub proxy: bool,
    /// The code of the voice.
    pub voice: String,
    /// The piece of text to speak.
    pub text: String,
}

/// Mathematical view of [`SpeechRequest`].
pub struct SpeechRequestView {
    pub service: Service,
    pub proxy: bool,
    pub voice: Seq<char>,
    pub text: Seq<u8>,
}

impl View for SpeechRequest {
    type V = SpeechRequestView;

    open spec fn view(&self) -> SpeechRequestView {
        SpeechRequestView {
            service: self.service,
            proxy: self.proxy,
            voice: self.voice@,
            text: encode_utf8(self.text@),
        }
    }
}

impl Voices {
    /// The code by which the service knows the voice.
    pub open spec fn code_text(self) -> Seq<char> {
        match self {
            Voices::DeDETiktokFemale => "de_001"@,
            Voices::DeDETiktokMale => "de_002"@,
            Voices::EnAUPollyNicole => "Nicole"@,
            Voices::EnAUPollyRussell => "Russell"@,
            Voices::EnAUTiktokFemale => "en_au_001"@,
            Voices::EnAUTiktokMale => "en_au_002"@,
            Voices::EnINPollyRaveena => "Raveena"@,
            Voices::EnUKPollyAmy => "Amy"@,
            Voices::EnUKPollyBrian => "Brian"@,
            Voices::EnUKPollyEmma => "Emma"@,
            Voices::EnUKTiktokMale1 => "en_uk_001"@,
            Voices::EnUKTiktokMale2 => "en_uk_003"@,
            Voices::EnUSPollyIvy => "Ivy"@,
            Voices::EnUSPollyJoanna => "Joanna"@,
            Voices::EnUSPollyJoey => "Joey"@,
            Voices::EnUSPollyJustin => "Justin"@,
            Voices::EnUSPollyKendra => "Kendra"@,
            Voices::EnUSPollyKimberly => "Kimberly"@,
            Voices::EnUSPollyMatthew => "Matthew"@,
            Voices::EnUSPollySalli => "Salli"@,
            Voices::EnUSTiktokC3PO => "en_us_c3po"@,
            Voices::EnUSTiktokChewbacca => "en_us_chewbacca"@,
            Voices::EnUSTiktokFemale1 => "en_us_001"@,
            Voices::EnUSTiktokFemale2 => "en_us_002"@,
            Voices::EnUSTiktokGhostface => "en_us_ghostface"@,
            Voices::EnUSTiktokMale1 => "en_us_006"@,
            Voices::EnUSTiktokMale2 => "en_us_007"@,
            Voices::EnUSTiktokMale3 => "en_us_009"@,
            Voices::EnUSTiktokRocket => "en_us_rocket"@,
            Voices::EnUSTiktokStitch => "en_us_stitch"@,
            Voices::EnUSTiktokStormtrooper => "en_us_stormtrooper"@,
            Voices::EnUSTiktokUnknown => "en_us_010"@,
            Voices::EnWelshPollyGeraint => "Geraint"@,
            Voices::EsESTiktokMale => "es_002"@,
            Voices::EsMXTiktokMale => "es_mx_002"@,
            Voices::FrFRTiktokMale1 => "fr_001"@,
            Voices::FrFRTiktokMale2 => "fr_002"@,
            Voices::IdIdTiktokFemale => "id_001"@,
            Voices::JpJPTiktokFemale1 => "jp_001"@,
            Voices::JpJPTiktokFemale2 => "jp_003"@,
            Voices::JpJPTiktokFemale3 => "jp_005"@,
            Voices::JpJPTiktokMale => "jp_006"@,
            Voices::KrKRTiktokFemale => "kr_003"@,
            Voices::KrKRTiktokMale1 => "kr_002"@,
            Voices::KrKRTiktokMale2 => "kr_004"@,
            Voices::PtBRTiktokFemale1 => "br_001"@,
            Voices::PtBRTiktokFemale2 => "br_003"@,
            Voices::PtBRTiktokFemale3 => "br_004"@,
            Voices::PtBRTiktokMale => "br_005"@,
        }
    }

    /// The service that offers the voice.
    pub open spec fn service_of(self) -> Service {
        match self {
            Voices::EnAUPollyNicole => Service::Polly,
            Voices::EnAUPollyRussell => Service::Polly,
            Voices::EnINPollyRaveena => Service::Polly,
            Voices::EnUKPollyAmy => Service::Polly,
            Voices::EnUKPollyBrian => Service::Polly,
            Voices::EnUKPollyEmma => Service::Polly,
            Voices::EnUSPollyIvy => Service::Polly,
            Voices::EnUSPollyJoanna => Service::Polly,
            Voices::EnUSPollyJoey => Service::Polly,
            Voices::EnUSPollyJustin => Service::Polly,
            Voices::EnUSPollyKendra => Service::Polly,
            Voices::EnUSPollyKimberly => Service::Polly,
            Voices::EnUSPollyMatthew => Service::Polly,
            Voices::EnUSPollySalli => Service::Polly,
            Voices::EnWelshPollyGeraint => Service::Polly,
            _ => Service::Tiktok,
        }
    }

    /// The code by which the service knows the voice.
    pub fn code(&self) -> (code: String)
        ensures
            code@ == self.code_text(),
    {
        let voice = match self {
            Voices::DeDETiktokFemale => "de_001",
            Voices::DeDETiktokMale => "de_002",
            Voices::EnAUPollyNicole => "Nicole",
            Voices::EnAUPollyRussell => "Russell",
            Voices::EnAUTiktokFemale => "en_au_001",
            Voices::EnAUTiktokMale => "en_au_002",
            Voices::EnINPollyRaveena => "Raveena",
            Voices::EnUKPollyAmy => "Amy",
            Voices::EnUKPollyBrian => "Brian",
            Voices::EnUKPollyEmma => "Emma",
            Voices::EnUKTiktokMale1 => "en_uk_001",
            Voices::EnUKTiktokMale2 => "en_uk_003",
            Voices::EnUSPollyIvy => "Ivy",
            Voices::EnUSPollyJoanna => "Joanna",
            Voices::EnUSPollyJoey => "Joey",
            Voices::EnUSPollyJustin => "Justin",
            Voices::EnUSPollyKendra => "Kendra",
            Voices::EnUSPollyKimberly => "Kimberly",
            Voices::EnUSPollyMatthew => "Matthew",
            Voices::EnUSPollySalli => "Salli",
            Voices::EnUSTiktokC3PO => "en_us_c3po",
            Voices::EnUSTiktokChewbacca => "en_us_chewbacca",
            Voices::EnUSTiktokFemale1 => "en_us_001",
            Voices::EnUSTiktokFemale2 => "en_us_002",
            Voices::EnUSTiktokGhostface => "en_us_ghostface",
            Voices::EnUSTiktokMale1 => "en_us_006",
            Voices::EnUSTiktokMale2 => "en_us_007",
            Voices::EnUSTiktokMale3 => "en_us_009",
            Voices::EnUSTiktokRocket => "en_us_rocket",
            Voices::EnUSTiktokStitch => "en_us_stitch",
            Voices::EnUSTiktokStormtrooper => "en_us_stormtrooper",
            Voices::EnUSTiktokUnknown => "en_us_010",
            Voices::EnWelshPollyGeraint => "Geraint",
            Voices::EsESTiktokMale => "es_002",
            Voices::EsMXTiktokMale => "es_mx_002",
            Voices::FrFRTiktokMale1 => "fr_001",
            Voices::FrFRTiktokMale2 => "fr_002",
            Voices::IdIdTiktokFemale => "id_001",
            Voices::JpJPTiktokFemale1 => "jp_001",
            Voices::JpJPTiktokFemale2 => "jp_003",
            Voices::JpJPTiktokFemale3 => "jp_005",
            Voices::JpJPTiktokMale => "jp_006",
            Voices::KrKRTiktokFemale => "kr_003",
            Voices::KrKRTiktokMale1 => "kr_002",
            Voices::KrKRTiktokMale2 => "kr_004",
            Voices::PtBRTiktokFemale1 => "br_001",
            Voices::PtBRTiktokFemale2 => "br_003",
            Voices::PtBRTiktokFemale3 => "br_004",
            Voices::PtBRTiktokMale => "br_005",
        };
        String::from_str(voice)
    }

    /// The service that offers the voice.
    pub fn service(&self) -> (service: Service)
        ensures
            service == self.service_of(),
    {
        match self {
            Voices::EnAUPollyNicole => Service::Polly,
            Voices::EnAUPollyRussell => Service::Polly,
            Voices::EnINPollyRaveena => Service::Polly,
            Voices::EnUKPollyAmy => Service::Polly,
            Voices::EnUKPollyBrian => Service::Polly,
            Voices::EnUKPollyEmma => Service::Polly,
            Voices::EnUSPollyIvy => Service::Polly,
            Voices::EnUSPollyJoanna => Service::Polly,
            Voices::EnUSPollyJoey => Service::Polly,
            Voices::EnUSPollyJustin => Service::Polly,
            Voices::EnUSPollyKendra => Service::Polly,
            Voices::EnUSPollyKimberly => Service::Polly,
            Voices::EnUSPollyMatthew => Service::Polly,
            Voices::EnUSPollySalli => Service::Polly,
            Voices::EnWelshPollyGeraint => Service::Polly,
            _ => Service::Tiktok,
        }
    }
}

/// What decoding `text` as base64 with the standard alphabet and padding
/// gives: the bytes, or nothing where `text` is no such encoding.
pub uninterp spec fn base64_decoded(text: Seq<char>) -> Option<Seq<u8>>;

/// Decodes `data` with `base64::decode`. The contract only gives the
/// outcome its name: the decoded bytes, or an error where `data` is no
/// base64 text.
#[verifier::external_body]
fn decode(data: &str) -> (r: Result<Vec<u8>, base64::DecodeError>)
    ensures
        base64_decoded(data@) == (match r {
            Ok(bytes) => Some(bytes@),
            Err(_) => None,
        }),
{
    base64::decode(data)
}

/// `bytes` cut into pieces of `size` bytes, the last one perhaps shorter;
/// nothing where `size` is zero or a cut would fall inside a character.
pub open spec fn chunks_of(bytes: Seq<u8>, size: nat) -> Option<Seq<Seq<u8>>>
    decreases bytes.len(),
{
    if size == 0 {
        None
    } else if bytes.len() == 0 {
        Some(Seq::empty())
    } else if bytes.len() <= size {
        Some(seq![bytes])
    } else if !is_char_boundary(bytes, size as int) {
        None
    } else {
        match chunks_of(bytes.skip(size as int), size) {
            Some(rest) => Some(seq![bytes.take(size as int)] + rest),
            None => None,
        }
    }
}

/// The bytes of each of `chunks`, in order.
pub open spec fn chunk_bytes(chunks: Seq<String>) -> Seq<Seq<u8>> {
    chunks.map_values(|s: String| encode_utf8(s@))
}

/// `done` followed by `rest`, where there is a rest.
pub open spec fn followed_by(done: Seq<Seq<u8>>, rest: Option<Seq<Seq<u8>>>) -> Option<
    Seq<Seq<u8>>,
> {
    match rest {
        Some(rest) => Some(done + rest),
        None => None,
    }
}

/// Most bytes of text that a service takes in one request, plus one.
pub open spec fn limit_of(service: Service) -> nat {
    match service {
        Service::Tiktok => 300,
        Service::Polly => 500,
    }
}

/// The pieces in which a text of these bytes is sent to `service`: the
/// whole text where it is below the limit of the service, else pieces of
/// one byte less than the limit.
pub open spec fn pieces_for(bytes: Seq<u8>, service: Service) -> Option<Seq<Seq<u8>>> {
    if bytes.len() >= limit_of(service) {
        chunks_of(bytes, (limit_of(service) - 1) as nat)
    } else {
        Some(seq![bytes])
    }
}

/// The address that a request to `service` goes to.
pub open spec fn endpoint_of(service: Service, proxy: bool) -> Seq<char> {
    match service {
        Service::Tiktok => if proxy {
            "https://warp-co.rs/https://api16-normal-useast5.us.tiktokv.com/media/api/text/speech/invoke/"@
        } else {
            "https://api16-normal-useast5.us.tiktokv.com/media/api/text/speech/invoke/"@
        },
        Service::Polly => if proxy {
            "https://warp-co.rs/https://streamlabs.com/polly/speak"@
        } else {
            "https://streamlabs.com/polly/speak"@
        },
    }
}

/// The origin that a request through the proxy declares.
pub open spec fn origin_of(service: Service) -> Seq<char> {
    match service {
        Service::Tiktok => "https://api16-normal-useast5.us.tiktokv.com"@,
        Service::Polly => "https://streamlabs.com/polly/speak"@,
    }
}

/// `text` cut into pieces of `size` bytes, the last one perhaps shorter.
/// `None` where `size` is zero or a cut would fall inside a character.
pub fn text_chunks(text: &str, size: usize) -> (chunks: Option<Vec<String>>)
    ensures
        (match chunks {
            Some(chunks) => Some(chunk_bytes(chunks@)),
            None => None,
        }) == chunks_of(encode_utf8(text@), size as nat),
{
    if size == 0 {
        return None;
    }
    let mut chunks: Vec<String> = Vec::new();
    let mut rest: &str = text;
    proof {
        assert(chunk_bytes(chunks@) =~= Seq::empty());
        assert(followed_by(Seq::empty(), chunks_of(encode_utf8(text@), size as nat)) =~= chunks_of(
            encode_utf8(text@),
            size as nat,
        )) by {
            match chunks_of(encode_utf8(text@), size as nat) {
                Some(all) => {
                    assert(Seq::<Seq<u8>>::empty() + all =~= all);
                },
                None => {},
            }
        }
    }
    while rest.as_bytes().len() > size
        invariant
            size > 0,
            chunks_of(encode_utf8(text@), size as nat) == followed_by(
                chunk_bytes(chunks@),
                chunks_of(encode_utf8(rest@), size as nat),
            ),
        decreases encode_utf8(rest@).len(),
    {
        if !rest.is_char_boundary(size) {
            return None;
        }
        let ghost before = chunk_bytes(chunks@);
        let ghost whole = encode_utf8(rest@);
        let (head, tail) = rest.split_at(size);
        chunks.push(head.to_owned());
        proof {
            assert(encode_utf8(head@) =~= whole.take(size as int));
            assert(encode_utf8(tail@) =~= whole.skip(size as int));
            assert(chunk_bytes(chunks@) =~= before.push(whole.take(size as int)));
            match chunks_of(whole.skip(size as int), size as nat) {
                Some(more) => {
                    assert(before + (seq![whole.take(size as int)] + more) =~= before.push(
                        whole.take(size as int),
                    ) + more);
                },
                None => {},
            }
        }
        rest = tail;
    }
    let ghost before = chunk_bytes(chunks@);
    if rest.as_bytes().len() > 0 {
        chunks.push(rest.to_owned());
        assert(chunk_bytes(chunks@) =~= before + seq![encode_utf8(rest@)]);
    } else {
        assert(before + Seq::<Seq<u8>>::empty() =~= before);
    }
    Some(chunks)
}

impl Voices {
    /// What is asked of the voice's service to have `text` spoken: one
    /// request for each piece of the text, in order. `None` where the text
    /// cannot be cut into pieces because a cut would fall inside a
    /// character.
    pub fn requests(&self, text: &str, proxy: bool) -> (requests: Option<Vec<SpeechRequest>>)
        ensures
            (match requests {
                Some(requests) => Some(requests@.map_values(|r: SpeechRequest| r@.text)),
                None => None,
            }) == pieces_for(encode_utf8(text@), self.service_of()),
            requests matches Some(requests) ==> forall|i: int|
                0 <= i < requests.len() ==> {
                    &&& (#[trigger] requests[i]).service == self.service_of()
                    &&& requests[i].proxy == proxy
                    &&& requests[i].voice@ == self.code_text()
                },
    {
        let service = self.service();
        let limit: usize = match service {
            Service::Tiktok => 300,
            Service::Polly => 500,
        };
        let texts = if text.as_bytes().len() >= limit {
            match text_chunks(text, limit - 1) {
                Some(texts) => texts,
                None => {
                    return None;
                },
            }
        } else {
            let mut texts: Vec<String> = Vec::new();
            texts.push(text.to_owned());
            assert(chunk_bytes(texts@) =~= seq![encode_utf8(text@)]);
            texts
        };
        let mut requests: Vec<SpeechRequest> = Vec::new();
        let mut i: usize = 0;
        while i < texts.len()
            invariant
                i <= texts.len(),
                service == self.service_of(),
                requests.len() == i,
                forall|j: int|
                    0 <= j < i ==> {
                        &&& (#[trigger] requests[j]).service == self.service_of()
                        &&& requests[j].proxy == proxy
                        &&& requests[j].voice@ == self.code_text()
                        &&& requests[j].text@ == texts[j]@
                    },
            decreases texts.len() - i,
        {
            requests.push(
                SpeechRequest { service, proxy, voice: self.code(), text: texts[i].clone() },
            );
            i += 1;
        }
        assert(requests@.map_values(|r: SpeechRequest| r@.text) =~= chunk_bytes(texts@));
        Some(requests)
    }
}

impl SpeechRequest {
    /// The address that the request goes to.
    pub fn endpoint(&self) -> (url: String)
        ensures
            url@ == endpoint_of(self.service, self.proxy),
    {
        match self.service {
            Service::Tiktok => if self.proxy {
                String::from_str(
                    "https://warp-co.rs/https://api16-normal-useast5.us.tiktokv.com/media/api/text/speech/invoke/",
                )
            } else {
                String::from_str(
                    "https://api16-normal-useast5.us.tiktokv.com/media/api/text/speech/invoke/",
                )
            },
            Service::Polly => if self.proxy {
                String::from_str("https://warp-co.rs/https://streamlabs.com/polly/speak")
            } else {
                String::from_str("https://streamlabs.com/polly/speak")
            },
        }
    }

    /// The origin that the request declares: one only through the proxy.
    pub fn origin(&self) -> (origin: Option<String>)
        ensures
            origin is Some <==> self.proxy,
            origin matches Some(o) ==> o@ == origin_of(self.service),
    {
        if !self.proxy {
            return None;
        }
        match self.service {
            Service::Tiktok => Some(String::from_str("https://api16-normal-useast5.us.tiktokv.com")),
            Service::Polly => Some(String::from_str("https://streamlabs.com/polly/speak")),
        }
    }

    /// The three query parameters of the request, as names and values: the
    /// voice, the text, and what the service wants besides.
    pub fn query(&self) -> (query: Vec<(String, String)>)
        ensures
            query.len() == 3,
            query[0].1@ == self.voice@,
            query[1].1@ == self.text@,
            self.service == Service::Tiktok ==> {
                &&& query[0].0@ == "text_speaker"@
                &&& query[1].0@ == "req_text"@
                &&& query[2].0@ == "speaker_map_type"@
                &&& query[2].1@ == "0"@
            },
            self.service == Service::Polly ==> {
                &&& query[0].0@ == "voice"@
                &&& query[1].0@ == "text"@
                &&& query[2].0@ == "service"@
                &&& query[2].1@ == "polly"@
            },
    {
        let mut query: Vec<(String, String)> = Vec::new();
        match self.service {
            Service::Tiktok => {
                query.push((String::from_str("text_speaker"), self.voice.clone()));
                query.push((String::from_str("req_text"), self.text.clone()));
                query.push((String::from_str("speaker_map_type"), String::from_str("0")));
            },
            Service::Polly => {
                query.push((String::from_str("voice"), self.voice.clone()));
                query.push((String::from_str("text"), self.text.clone()));
                query.push((String::from_str("service"), String::from_str("polly")));
            },
        }
        query
    }
}

/// What an answer of the first service with these fields amounts to: the
/// bytes that `data` encodes; a refusal that says `message` where `data`
/// is empty.
pub open spec fn tiktok_outcome(data: Seq<char>, message: Seq<char>) -> Result<
    Seq<u8>,
    SpeechErrorView,
> {
    if data.len() == 0 {
        Err(SpeechErrorView::Refused { message })
    } else {
        match base64_decoded(data) {
            Some(bytes) => Ok(bytes),
            None => Err(SpeechErrorView::Encoding),
        }
    }
}

/// What an answer of the second service with these fields amounts to: the
/// address of the audio; a refusal where it holds an error; a failure
/// where it reports no success.
pub open spec fn polly_outcome(error: Option<Seq<char>>, success: bool, speak_url: Seq<char>)
    -> Result<Seq<char>, SpeechErrorView> {
    match error {
        Some(message) => Err(SpeechErrorView::Refused { message }),
        None => if success {
            Ok(speak_url)
        } else {
            Err(SpeechErrorView::Failed)
        },
    }
}

/// The audio in an answer of the first service with the fields `data` and
/// `message`.
pub fn tiktok_audio(data: &str, message: &str) -> (r: Result<Vec<u8>, SpeechError>)
    ensures
        (match r {
            Ok(audio) => Ok(audio@),
            Err(e) => Err(e@),
        }) == tiktok_outcome(data@, message@),
{
    if data.is_empty() {
        return Err(SpeechError::Refused { message: String::from_str(message) });
    }
    match decode(data) {
        Ok(audio) => Ok(audio),
        Err(_) => Err(SpeechError::Encoding),
    }
}

/// The address of the audio in an answer of the second service with the
/// fields `error`, `success` and `speak_url`.
pub fn polly_audio(error: Option<&str>, success: bool, speak_url: &str) -> (r: Result<
    String,
    SpeechError,
>)
    ensures
        (match r {
            Ok(url) => Ok(url@),
            Err(e) => Err(e@),
        }) == polly_outcome(
            match error {
                Some(reason) => Some(reason@),
                None => None,
            },
            success,
            speak_url@,
        ),
{
    match error {
        Some(reason) => Err(SpeechError::Refused { message: String::from_str(reason) }),
        None => if success {
            Ok(String::from_str(speak_url))
        } else {
            Err(SpeechError::Failed)
        },
    }
}

} // verus!
