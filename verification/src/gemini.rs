//! The request/response contract with the remote generation service:
//! response data model, safety-filter interpretation and image-data
//! extraction.

use vstd::prelude::*;
use vstd::string::StrSliceExecFns;
use vstd::string::StringExecFns;
use crate::codec::decode_inline_payload;
use crate::codec::spec_b64_decode;
use crate::error::ImagoError;
use crate::json::json_array_of;
use crate::json::json_string_of;
use crate::json::spec_json_array;
use crate::json::spec_json_string;
use crate::text::contains_string;
use crate::text::join_strings;
use crate::text::spec_join;
use crate::text::spec_starts_with;
use crate::text::str_eq;
use crate::text::str_starts_with;
use crate::text::views_of;

verus! {

/// Response from content generation.
#[derive(Debug, PartialEq)]
pub struct GenerateContentResponse {
    pub candidates: Option<Vec<Candidate>>,
    pub prompt_feedback: Option<PromptFeedback>,
    pub usage_metadata: Option<UsageMetadata>,
}

#[derive(Debug, PartialEq)]
pub struct Candidate {
    pub content: Option<CandidateContent>,
    pub finish_reason: Option<String>,
    pub safety_ratings: Option<Vec<SafetyRating>>,
}

#[derive(Debug, PartialEq)]
pub struct CandidateContent {
    pub parts: Vec<ResponsePart>,
}

/// A reply part: either inline text or inline binary data with a MIME type.
#[derive(Debug, PartialEq)]
pub enum ResponsePart {
    Text { text: String },
    InlineData { inline_data: InlineData },
}

#[derive(Debug, PartialEq)]
pub struct InlineData {
    pub mime_type: String,
    pub data: String,
}

#[derive(Debug, PartialEq)]
pub struct SafetyRating {
    pub category: String,
    pub probability: String,
    pub blocked: Option<bool>,
}

#[derive(Debug, PartialEq)]
pub struct PromptFeedback {
    pub safety_ratings: Option<Vec<SafetyRating>>,
    pub block_reason: Option<String>,
}

#[derive(Debug, PartialEq)]
pub struct UsageMetadata {
    pub prompt_token_count: Option<u64>,
    pub candidates_token_count: Option<u64>,
    pub total_token_count: Option<u64>,
}

/// Request payload for content generation. Immutable once built; one per
/// call.
pub struct GenerateContentRequest {
    pub contents: Vec<Content>,
    pub generation_config: GenerationConfig,
}

pub struct Content {
    pub parts: Vec<Part>,
}

/// An outbound part: only text is ever sent.
pub enum Part {
    Text { text: String },
}

pub struct GenerationConfig {
    pub response_modalities: Vec<String>,
}

pub open spec fn spec_part_json(p: Part) -> Seq<char> {
    match p {
        Part::Text { text } => "{\"text\":"@ + spec_json_string(text@) + "}"@,
    }
}

pub open spec fn spec_parts_json(parts: Seq<Part>) -> Seq<Seq<char>>
    decreases parts.len(),
{
    if parts.len() == 0 {
        Seq::empty()
    } else {
        spec_parts_json(parts.drop_last()).push(spec_part_json(parts.last()))
    }
}

pub open spec fn spec_content_json(c: Content) -> Seq<char> {
    "{\"parts\":"@ + spec_json_array(spec_parts_json(c.parts@)) + "}"@
}

pub open spec fn spec_contents_json(cs: Seq<Content>) -> Seq<Seq<char>>
    decreases cs.len(),
{
    if cs.len() == 0 {
        Seq::empty()
    } else {
        spec_contents_json(cs.drop_last()).push(spec_content_json(cs.last()))
    }
}

pub open spec fn spec_modalities_json(ms: Seq<String>) -> Seq<Seq<char>>
    decreases ms.len(),
{
    if ms.len() == 0 {
        Seq::empty()
    } else {
        spec_modalities_json(ms.drop_last()).push(spec_json_string(ms.last()@))
    }
}

/// The exact body sent for a request: the content blocks and the
/// generation configuration naming the desired response modalities.
pub open spec fn spec_request_json(r: GenerateContentRequest) -> Seq<char> {
    "{\"contents\":"@ + spec_json_array(spec_contents_json(r.contents@))
        + ",\"generationConfig\":{\"responseModalities\":"@ + spec_json_array(
        spec_modalities_json(r.generation_config.response_modalities@),
    ) + "}}"@
}

fn part_to_json(p: &Part) -> (r: String)
    ensures
        r@ == spec_part_json(*p),
{
    match p {
        Part::Text { text } => String::from_str("{\"text\":").concat(
            json_string_of(text.as_str()).as_str(),
        ).concat("}"),
    }
}

fn content_to_json(c: &Content) -> (r: String)
    ensures
        r@ == spec_content_json(*c),
{
    let mut parts: Vec<String> = Vec::new();
    let mut i: usize = 0;
    while i < c.parts.len()
        invariant
            i <= c.parts@.len(),
            views_of(parts@) == spec_parts_json(c.parts@.take(i as int)),
        decreases c.parts@.len() - i,
    {
        proof {
            assert(c.parts@.take(i + 1).drop_last() =~= c.parts@.take(i as int));
            assert(c.parts@.take(i + 1).last() == c.parts@[i as int]);
        }
        parts.push(part_to_json(&c.parts[i]));
        proof {
            assert(views_of(parts@) =~= spec_parts_json(c.parts@.take(i + 1)));
        }
        i += 1;
    }
    proof {
        assert(c.parts@.take(c.parts@.len() as int) =~= c.parts@);
    }
    String::from_str("{\"parts\":").concat(json_array_of(&parts).as_str()).concat("}")
}

/// Render a request as its exact JSON body.
pub fn serialize_request(req: &GenerateContentRequest) -> (r: String)
    ensures
        r@ == spec_request_json(*req),
{
    let mut contents: Vec<String> = Vec::new();
    let mut i: usize = 0;
    while i < req.contents.len()
        invariant
            i <= req.contents@.len(),
            views_of(contents@) == spec_contents_json(req.contents@.take(i as int)),
        decreases req.contents@.len() - i,
    {
        proof {
            assert(req.contents@.take(i + 1).drop_last() =~= req.contents@.take(i as int));
            assert(req.contents@.take(i + 1).last() == req.contents@[i as int]);
        }
        contents.push(content_to_json(&req.contents[i]));
        proof {
            assert(views_of(contents@) =~= spec_contents_json(req.contents@.take(i + 1)));
        }
        i += 1;
    }
    proof {
        assert(req.contents@.take(req.contents@.len() as int) =~= req.contents@);
    }
    let modalities_seq = &req.generation_config.response_modalities;
    let mut modalities: Vec<String> = Vec::new();
    let mut j: usize = 0;
    while j < modalities_seq.len()
        invariant
            j <= modalities_seq@.len(),
            views_of(modalities@) == spec_modalities_json(modalities_seq@.take(j as int)),
        decreases modalities_seq@.len() - j,
    {
        proof {
            assert(modalities_seq@.take(j + 1).drop_last() =~= modalities_seq@.take(j as int));
            assert(modalities_seq@.take(j + 1).last() == modalities_seq@[j as int]);
        }
        modalities.push(json_string_of(modalities_seq[j].as_str()));
        proof {
            assert(views_of(modalities@) =~= spec_modalities_json(modalities_seq@.take(j + 1)));
        }
        j += 1;
    }
    proof {
        assert(modalities_seq@.take(modalities_seq@.len() as int) =~= modalities_seq@);
    }
    String::from_str("{\"contents\":").concat(json_array_of(&contents).as_str()).concat(
        ",\"generationConfig\":{\"responseModalities\":",
    ).concat(json_array_of(&modalities).as_str()).concat("}}")
}

/// Produce a generation request from a raw prompt string: one content block
/// holding one text part carrying the prompt, and the "IMAGE" response
/// modality. Pure construction; an empty prompt passes through.
pub fn build_request(prompt: &str) -> (r: GenerateContentRequest)
    ensures
        r.contents@.len() == 1,
        r.contents@[0].parts@.len() == 1,
        (r.contents@[0].parts@[0] matches Part::Text { text } && text@ == prompt@),
        r.generation_config.response_modalities@.len() == 1,
        r.generation_config.response_modalities@[0]@ == "IMAGE"@,
{
    let mut parts: Vec<Part> = Vec::new();
    parts.push(Part::Text { text: String::from_str(prompt) });
    let mut contents: Vec<Content> = Vec::new();
    contents.push(Content { parts });
    let mut modalities: Vec<String> = Vec::new();
    modalities.push(String::from_str("IMAGE"));
    GenerateContentRequest {
        contents,
        generation_config: GenerationConfig { response_modalities: modalities },
    }
}

pub open spec fn opt_view(t: Option<String>) -> Option<Seq<char>> {
    match t {
        Some(s) => Some(s@),
        None => None,
    }
}

/// What a left-to-right scan of the parts finds: the first image part wins,
/// carrying the last text seen before it; with no image part, the last text
/// part wins; otherwise nothing.
pub enum PartScan {
    Image { data: Seq<char>, text: Option<Seq<char>> },
    TextOnly(Seq<char>),
    Nothing,
}

pub open spec fn spec_scan(parts: Seq<ResponsePart>, text: Option<Seq<char>>) -> PartScan
    decreases parts.len(),
{
    if parts.len() == 0 {
        match text {
            Some(t) => PartScan::TextOnly(t),
            None => PartScan::Nothing,
        }
    } else {
        match parts[0] {
            ResponsePart::InlineData { inline_data } => {
                if spec_starts_with(inline_data.mime_type@, "image/"@) {
                    PartScan::Image { data: inline_data.data@, text }
                } else {
                    spec_scan(parts.drop_first(), text)
                }
            },
            ResponsePart::Text { text: t } => spec_scan(parts.drop_first(), Some(t@)),
        }
    }
}

/// The "category: probability" lines of the ratings marked blocked, in the
/// ratings' original order.
pub open spec fn spec_blocked_pairs(ratings: Seq<SafetyRating>) -> Seq<Seq<char>>
    decreases ratings.len(),
{
    if ratings.len() == 0 {
        Seq::empty()
    } else {
        let rest = spec_blocked_pairs(ratings.drop_last());
        if ratings.last().blocked == Some(true) {
            rest.push(ratings.last().category@ + ": "@ + ratings.last().probability@)
        } else {
            rest
        }
    }
}

/// The safety message owed to a candidate's finish reason, if any: a
/// non-"STOP" reason fails when blocked ratings exist or when it names the
/// image-safety block; any other non-"STOP" reason falls through to content
/// inspection.
pub open spec fn spec_finish_block(c: Candidate) -> Option<Seq<char>> {
    match c.finish_reason {
        Some(reason) => {
            if reason@ == "STOP"@ {
                None
            } else {
                let blocked = match c.safety_ratings {
                    Some(ratings) => spec_blocked_pairs(ratings@),
                    None => Seq::empty(),
                };
                if blocked.len() > 0 {
                    Some(spec_join(blocked, ", "@))
                } else if reason@ == "IMAGE_SAFETY"@ {
                    Some("Image content blocked by safety filters"@)
                } else {
                    None
                }
            }
        },
        None => None,
    }
}

/// The safety message owed to prompt feedback, if any: feedback carrying a
/// non-empty block reason short-circuits all candidate inspection.
pub open spec fn spec_feedback_block(r: GenerateContentResponse) -> Option<Seq<char>> {
    match r.prompt_feedback {
        Some(f) => match f.block_reason {
            Some(b) => if b@.len() > 0 {
                Some("Request blocked: "@ + b@)
            } else {
                None
            },
            None => None,
        },
        None => None,
    }
}

/// The extraction decision for a whole response, in the order the protocol
/// fixes: feedback block first, then the first candidate's finish reason,
/// then its parts.
pub enum ExtractPlan {
    Blocked(Seq<char>),
    NoData,
    TextOnly(Seq<char>),
    Image { data: Seq<char>, text: Option<Seq<char>> },
}

pub open spec fn spec_extract_plan(r: GenerateContentResponse) -> ExtractPlan {
    match spec_feedback_block(r) {
        Some(msg) => ExtractPlan::Blocked(msg),
        None => match r.candidates {
            None => ExtractPlan::NoData,
            Some(cs) => {
                if cs@.len() == 0 {
                    ExtractPlan::NoData
                } else {
                    let c = cs@[0];
                    match spec_finish_block(c) {
                        Some(msg) => ExtractPlan::Blocked(msg),
                        None => match c.content {
                            None => ExtractPlan::NoData,
                            Some(content) => match spec_scan(content.parts@, None) {
                                PartScan::Image { data, text } => ExtractPlan::Image { data, text },
                                PartScan::TextOnly(t) => ExtractPlan::TextOnly(t),
                                PartScan::Nothing => ExtractPlan::NoData,
                            },
                        },
                    }
                }
            },
        },
    }
}

/// Law: prompt feedback carrying a non-empty block reason decides the whole
/// extraction, whatever the candidates hold — even a candidate with an image
/// part cannot succeed past it.
pub proof fn lemma_feedback_block_precedes_candidates(r: GenerateContentResponse)
    requires
        r.prompt_feedback matches Some(f) && f.block_reason matches Some(b) && b@.len() > 0,
    ensures
        r.prompt_feedback matches Some(f) && f.block_reason matches Some(b)
            && spec_extract_plan(r) == ExtractPlan::Blocked("Request blocked: "@ + b@),
{
}

/// Law: a response whose sole candidate finished with "IMAGE_SAFETY" and
/// carries no safety ratings is blocked with the fixed generic message,
/// whatever its parts hold.
pub proof fn lemma_image_safety_generic(r: GenerateContentResponse)
    requires
        spec_feedback_block(r) is None,
        r.candidates matches Some(cs) && cs@.len() > 0 && (cs@[0].finish_reason matches Some(
            reason,
        ) && reason@ == "IMAGE_SAFETY"@) && cs@[0].safety_ratings is None,
    ensures
        spec_extract_plan(r) == ExtractPlan::Blocked("Image content blocked by safety filters"@),
{
    reveal_strlit("IMAGE_SAFETY");
    reveal_strlit("STOP");
    assert("IMAGE_SAFETY"@.len() != "STOP"@.len());
}

/// What the part scan found, as runnable data.
pub enum ScanOutcome {
    FoundImage { data: String, text: Option<String> },
    FoundText(String),
    FoundNothing,
}

fn blocked_pairs(ratings: &Vec<SafetyRating>) -> (r: Vec<String>)
    ensures
        views_of(r@) == spec_blocked_pairs(ratings@),
{
    let mut out: Vec<String> = Vec::new();
    let mut i: usize = 0;
    while i < ratings.len()
        invariant
            i <= ratings@.len(),
            views_of(out@) == spec_blocked_pairs(ratings@.take(i as int)),
        decreases ratings@.len() - i,
    {
        proof {
            assert(ratings@.take(i + 1).drop_last() =~= ratings@.take(i as int));
            assert(ratings@.take(i + 1).last() == ratings@[i as int]);
        }
        match ratings[i].blocked {
            Some(true) => {
                let pair = ratings[i].category.clone().concat(": ").concat(
                    ratings[i].probability.as_str(),
                );
                out.push(pair);
                proof {
                    assert(views_of(out@) =~= spec_blocked_pairs(ratings@.take(i + 1)));
                }
            },
            _ => {},
        }
        i += 1;
    }
    proof {
        assert(ratings@.take(ratings@.len() as int) =~= ratings@);
    }
    out
}

fn scan_parts(parts: &Vec<ResponsePart>) -> (r: ScanOutcome)
    ensures
        match r {
            ScanOutcome::FoundImage { data, text } => spec_scan(parts@, None)
                == (PartScan::Image { data: data@, text: opt_view(text) }),
            ScanOutcome::FoundText(t) => spec_scan(parts@, None) == PartScan::TextOnly(t@),
            ScanOutcome::FoundNothing => spec_scan(parts@, None) == PartScan::Nothing,
        },
{
    let mut text_response: Option<String> = None;
    let mut i: usize = 0;
    proof {
        assert(parts@.skip(0) =~= parts@);
    }
    while i < parts.len()
        invariant
            i <= parts@.len(),
            spec_scan(parts@, None) == spec_scan(
                parts@.skip(i as int),
                opt_view(text_response),
            ),
        decreases parts@.len() - i,
    {
        proof {
            assert(parts@.skip(i as int)[0] == parts@[i as int]);
            assert(parts@.skip(i as int).drop_first() =~= parts@.skip(i + 1));
        }
        match &parts[i] {
            ResponsePart::InlineData { inline_data } => {
                if str_starts_with(inline_data.mime_type.as_str(), "image/") {
                    return ScanOutcome::FoundImage {
                        data: inline_data.data.clone(),
                        text: text_response,
                    };
                }
            },
            ResponsePart::Text { text } => {
                text_response = Some(text.clone());
            },
        }
        i += 1;
    }
    proof {
        assert(parts@.skip(parts@.len() as int).len() == 0);
    }
    match text_response {
        Some(t) => ScanOutcome::FoundText(t),
        None => ScanOutcome::FoundNothing,
    }
}

/// The base address every request is built on.
pub open spec fn spec_api_base_url() -> Seq<char> {
    "https://generativelanguage.googleapis.com/v1beta/models"@
}

/// The fixed fallback model identifiers, in retry-priority order.
pub open spec fn spec_model_fallbacks() -> Seq<Seq<char>> {
    seq![
        "gemini-2.5-flash-image"@,
        "gemini-3.1-flash-image-preview"@,
        "gemini-3-pro-image-preview"@,
        "gemini-2.0-flash-exp-image-generation"@,
    ]
}

pub fn model_fallbacks() -> (r: Vec<String>)
    ensures
        views_of(r@) == spec_model_fallbacks(),
{
    let mut v: Vec<String> = Vec::new();
    v.push(String::from_str("gemini-2.5-flash-image"));
    v.push(String::from_str("gemini-3.1-flash-image-preview"));
    v.push(String::from_str("gemini-3-pro-image-preview"));
    v.push(String::from_str("gemini-2.0-flash-exp-image-generation"));
    proof {
        assert(views_of(v@) =~= spec_model_fallbacks());
    }
    v
}

/// The given identifiers with every later repetition of an earlier one
/// removed: each identifier keeps its first position.
pub open spec fn spec_dedup(items: Seq<Seq<char>>) -> Seq<Seq<char>>
    decreases items.len(),
{
    if items.len() == 0 {
        Seq::empty()
    } else {
        let rest = spec_dedup(items.drop_last());
        if rest.contains(items.last()) {
            rest
        } else {
            rest.push(items.last())
        }
    }
}

pub proof fn lemma_dedup_props(items: Seq<Seq<char>>)
    ensures
        spec_dedup(items).no_duplicates(),
        forall|x: Seq<char>|
            #![trigger spec_dedup(items).contains(x)]
            #![trigger items.contains(x)]
            spec_dedup(items).contains(x) <==> items.contains(x),
        items.len() > 0 ==> spec_dedup(items).len() > 0 && spec_dedup(items)[0] == items[0],
    decreases items.len(),
{
    if items.len() > 0 {
        let prefix = items.drop_last();
        let last = items.last();
        lemma_dedup_props(prefix);
        let rest = spec_dedup(prefix);
        let d = spec_dedup(items);
        if !rest.contains(last) {
            assert(d == rest.push(last));
            assert forall|i: int, j: int|
                0 <= i < d.len() && 0 <= j < d.len() && i != j implies d[i] != d[j] by {
                if i < rest.len() && j == rest.len() {
                    assert(d[i] == rest[i]);
                    if rest[i] == last {
                        assert(rest.contains(last));
                    }
                } else if j < rest.len() && i == rest.len() {
                    assert(d[j] == rest[j]);
                    if rest[j] == last {
                        assert(rest.contains(last));
                    }
                }
            }
        }
        assert forall|x: Seq<char>| #[trigger] d.contains(x) implies items.contains(x) by {
            let k = choose|k: int| 0 <= k < d.len() && d[k] == x;
            if k < rest.len() {
                assert(rest[k] == x);
                assert(rest.contains(x));
                assert(prefix.contains(x));
                let k2 = choose|k2: int| 0 <= k2 < prefix.len() && prefix[k2] == x;
                assert(items[k2] == x);
            } else {
                assert(x == last);
                assert(items[items.len() - 1] == x);
            }
        }
        assert forall|x: Seq<char>| #[trigger] items.contains(x) implies d.contains(x) by {
            let k = choose|k: int| 0 <= k < items.len() && items[k] == x;
            if k < items.len() - 1 {
                assert(prefix[k] == x);
                assert(prefix.contains(x));
                assert(rest.contains(x));
                let k2 = choose|k2: int| 0 <= k2 < rest.len() && rest[k2] == x;
                if !rest.contains(last) {
                    assert(d[k2] == x);
                }
            } else {
                assert(x == last);
                if rest.contains(last) {
                    assert(d.contains(x));
                } else {
                    assert(d[rest.len() as int] == x);
                }
            }
        }
        if items.len() == 1 {
            assert(prefix.len() == 0);
            assert(rest.len() == 0);
            assert(d == rest.push(last));
            assert(d[0] == items[0]);
        } else {
            assert(prefix[0] == items[0]);
            assert(rest[0] == prefix[0]);
        }
    }
}

/// Law: the combined attempt sequence — the primary identifier first, then
/// the fallbacks in order, repetitions skipped — holds no identifier twice,
/// keeps the primary in front, and holds exactly the identifiers given. In
/// particular, a primary equal to one of the fallbacks appears exactly once,
/// in its primary-first position.
pub proof fn lemma_attempt_sequence(primary: Seq<char>, fallbacks: Seq<Seq<char>>)
    ensures
        spec_dedup(seq![primary] + fallbacks).no_duplicates(),
        spec_dedup(seq![primary] + fallbacks).len() > 0,
        spec_dedup(seq![primary] + fallbacks)[0] == primary,
        forall|x: Seq<char>| #[trigger]
            spec_dedup(seq![primary] + fallbacks).contains(x) <==> (x == primary
                || fallbacks.contains(x)),
{
    let all = seq![primary] + fallbacks;
    lemma_dedup_props(all);
    assert(all[0] == primary);
    assert forall|x: Seq<char>| #[trigger] all.contains(x) <==> (x == primary
        || fallbacks.contains(x)) by {
        if all.contains(x) {
            let k = choose|k: int| 0 <= k < all.len() && all[k] == x;
            if k > 0 {
                assert(fallbacks[k - 1] == x);
                assert(fallbacks.contains(x));
            }
        }
        if x == primary {
            assert(all[0] == x);
        }
        if fallbacks.contains(x) {
            let k = choose|k: int| 0 <= k < fallbacks.len() && fallbacks[k] == x;
            assert(all[k + 1] == x);
        }
    }
}

/// Client for the remote generation service; it holds the credential and the
/// primary model identifier, while the transport lives with the caller.
pub struct GeminiClient {
    api_key: String,
    model: String,
}

impl GeminiClient {
    pub closed spec fn spec_api_key(&self) -> Seq<char> {
        self.api_key@
    }

    pub closed spec fn spec_model(&self) -> Seq<char> {
        self.model@
    }

    /// Create a new client for the given credential and primary model.
    pub fn new(api_key: String, model: String) -> (r: Self)
        ensures
            r.spec_api_key() == api_key@,
            r.spec_model() == model@,
    {
        GeminiClient { api_key, model }
    }

    /// The full attempt sequence: the primary identifier first, then the
    /// fixed fallbacks, repetitions skipped so no model is tried twice.
    pub fn attempt_models(&self) -> (r: Vec<String>)
        ensures
            views_of(r@) == spec_dedup(seq![self.spec_model()] + spec_model_fallbacks()),
    {
        let mut all: Vec<String> = Vec::new();
        all.push(self.model.clone());
        let mut fb = model_fallbacks();
        all.append(&mut fb);
        proof {
            assert(views_of(all@) =~= seq![self.spec_model()] + spec_model_fallbacks());
        }
        let mut out: Vec<String> = Vec::new();
        let mut i: usize = 0;
        while i < all.len()
            invariant
                i <= all@.len(),
                views_of(all@) == seq![self.spec_model()] + spec_model_fallbacks(),
                views_of(out@) == spec_dedup(views_of(all@).take(i as int)),
            decreases all@.len() - i,
        {
            proof {
                assert(views_of(all@).take(i + 1).drop_last() =~= views_of(all@).take(i as int));
                assert(views_of(all@).take(i + 1).last() == views_of(all@)[i as int]);
            }
            if !contains_string(&out, all[i].as_str()) {
                out.push(all[i].clone());
                proof {
                    assert(views_of(out@) =~= spec_dedup(views_of(all@).take(i + 1)));
                }
            }
            i += 1;
        }
        proof {
            assert(views_of(all@).take(all@.len() as int) =~= views_of(all@));
        }
        out
    }

    /// The endpoint address for one model: the base address, the identifier,
    /// the generation verb, and the credential as a query parameter.
    pub fn request_url(&self, model: &str) -> (r: String)
        ensures
            r@ == spec_api_base_url() + "/"@ + model@ + ":generateContent?key="@
                + self.spec_api_key(),
    {
        String::from_str("https://generativelanguage.googleapis.com/v1beta/models").concat(
            "/",
        ).concat(model).concat(":generateContent?key=").concat(self.api_key.as_str())
    }

    /// Extract image data from a parsed response: exactly the decision that
    /// `spec_extract_plan` fixes, with the winning payload decoded from the
    /// transport encoding.
    pub fn extract_image_data(&self, response: GenerateContentResponse) -> (r: Result<
        (Vec<u8>, Option<String>),
        ImagoError,
    >)
        ensures
            match spec_extract_plan(response) {
                ExtractPlan::Blocked(msg) => r matches Err(ImagoError::SafetyFilter(m)) && m@
                    == msg,
                ExtractPlan::NoData => r matches Err(ImagoError::NoImageData),
                ExtractPlan::TextOnly(t) => r matches Err(ImagoError::ApiResponseError(m)) && m@
                    == "Model returned text instead of image: "@ + t,
                ExtractPlan::Image { data, text } => match spec_b64_decode(data) {
                    Some(bytes) => r matches Ok((b, t)) && b@ == bytes && opt_view(t) == text,
                    None => r matches Err(ImagoError::Base64Error(_)),
                },
            },
    {
        match &response.prompt_feedback {
            Some(feedback) => match &feedback.block_reason {
                Some(reason) => {
                    if reason.as_str().unicode_len() > 0 {
                        return Err(
                            ImagoError::SafetyFilter(
                                String::from_str("Request blocked: ").concat(reason.as_str()),
                            ),
                        );
                    }
                },
                None => {},
            },
            None => {},
        }
        let candidates = match &response.candidates {
            Some(c) => c,
            None => { return Err(ImagoError::NoImageData) },
        };
        if candidates.len() == 0 {
            return Err(ImagoError::NoImageData);
        }
        let candidate = &candidates[0];
        match &candidate.finish_reason {
            Some(reason) => {
                if !str_eq(reason.as_str(), "STOP") {
                    match &candidate.safety_ratings {
                        Some(ratings) => {
                            let blocked = blocked_pairs(ratings);
                            if blocked.len() > 0 {
                                return Err(ImagoError::SafetyFilter(join_strings(&blocked, ", ")));
                            }
                        },
                        None => {},
                    }
                    if str_eq(reason.as_str(), "IMAGE_SAFETY") {
                        return Err(
                            ImagoError::SafetyFilter(
                                String::from_str("Image content blocked by safety filters"),
                            ),
                        );
                    }
                }
            },
            None => {},
        }
        let content = match &candidate.content {
            Some(c) => c,
            None => { return Err(ImagoError::NoImageData) },
        };
        match scan_parts(&content.parts) {
            ScanOutcome::FoundImage { data, text } => match decode_inline_payload(data.as_str()) {
                Ok(bytes) => Ok((bytes, text)),
                Err(e) => Err(e),
            },
            ScanOutcome::FoundText(t) => Err(
                ImagoError::ApiResponseError(
                    String::from_str("Model returned text instead of image: ").concat(t.as_str()),
                ),
            ),
            ScanOutcome::FoundNothing => Err(ImagoError::NoImageData),
        }
    }
}

/// What one attempt against one model produced, as the transport saw it.
pub enum AttemptOutcome {
    /// The request never completed: a connection, timeout or protocol error.
    Transport { message: String },
    /// The service answered with a status code and a body.
    Http { status: u16, body: String },
}

/// The protocol's judgement of one attempt.
pub enum LoopVerdict {
    /// The attempt succeeded: parse this body as a generation response.
    ParseBody(String),
    /// The protocol is over, with this error.
    Fail(ImagoError),
}

/// The message reported when every candidate model was exhausted.
pub open spec fn spec_exhausted_message(models: Seq<Seq<char>>) -> Seq<char> {
    "No available image model found. Tried: "@ + spec_join(models, ", "@)
}

/// The fatal error for a success response whose body does not parse as a
/// generation response; a malformed body from a reachable endpoint is not
/// retried against further models.
pub fn parse_failure_error(detail: &str) -> (r: ImagoError)
    ensures
        r matches ImagoError::ResponseFormatError { message } && message@
            == "Failed to parse API response: "@ + detail@,
{
    ImagoError::ResponseFormatError {
        message: String::from_str("Failed to parse API response: ").concat(detail),
    }
}

/// The model-fallback submission protocol, one judged attempt at a time.
/// The caller issues the request for `pending_model()` and hands the outcome
/// to `record`; attempts are strictly sequential, so no later identifier is
/// contacted once a verdict is out.
pub struct SubmissionLoop {
    models: Vec<String>,
    next: usize,
}

/// Law: when every candidate yields 404, the protocol attempts each
/// identifier of the combined sequence exactly once, in order, and fails
/// with the error listing them all. The returned pair is the attempt trace
/// and that final error.
pub fn exhaust_all_unavailable(client: &GeminiClient) -> (r: (Vec<String>, ImagoError))
    ensures
        views_of(r.0@) == spec_dedup(seq![client.spec_model()] + spec_model_fallbacks()),
        views_of(r.0@).no_duplicates(),
        (r.1 matches ImagoError::ApiResponseError(m) && m@ == spec_exhausted_message(
            views_of(r.0@),
        )),
{
    let ghost d = spec_dedup(seq![client.spec_model()] + spec_model_fallbacks());
    proof {
        lemma_attempt_sequence(client.spec_model(), spec_model_fallbacks());
    }
    let mut sl = SubmissionLoop::new(client);
    let mut attempted: Vec<String> = Vec::new();
    loop
        invariant
            d == spec_dedup(seq![client.spec_model()] + spec_model_fallbacks()),
            sl.wf(),
            sl.spec_models() == d,
            d.no_duplicates(),
            d.len() > 0,
            sl.spec_next() < d.len(),
            views_of(attempted@) == d.take(sl.spec_next()),
        decreases sl.spec_models().len() - sl.spec_next(),
    {
        match sl.pending_model() {
            Some(m) => {
                let ghost prev = attempted@;
                let ghost k = sl.spec_next();
                attempted.push(m);
                proof {
                    assert(views_of(attempted@) =~= views_of(prev).push(m@));
                    assert(d.take(k + 1) =~= d.take(k).push(d[k]));
                }
                match sl.record(AttemptOutcome::Http { status: 404, body: String::new() }) {
                    Some(LoopVerdict::Fail(e)) => {
                        proof {
                            assert(sl.spec_next() == d.len());
                            assert(views_of(attempted@) =~= d);
                        }
                        return (attempted, e);
                    },
                    Some(LoopVerdict::ParseBody(_)) => {
                        proof {
                            assert(false);
                        }
                        return (attempted, ImagoError::NoImageData);
                    },
                    None => {},
                }
            },
            None => {
                proof {
                    assert(false);
                }
                return (attempted, ImagoError::NoImageData);
            },
        }
    }
}

impl SubmissionLoop {
    /// The full attempt sequence, primary first, no identifier twice.
    pub closed spec fn spec_models(&self) -> Seq<Seq<char>> {
        views_of(self.models@)
    }

    /// How many identifiers have been attempted so far.
    pub closed spec fn spec_next(&self) -> int {
        self.next as int
    }

    pub open spec fn wf(&self) -> bool {
        self.spec_next() <= self.spec_models().len()
    }

    /// Start the fallback protocol for a client.
    pub fn new(client: &GeminiClient) -> (r: Self)
        ensures
            r.wf(),
            r.spec_models() == spec_dedup(seq![client.spec_model()] + spec_model_fallbacks()),
            r.spec_next() == 0,
    {
        SubmissionLoop { models: client.attempt_models(), next: 0 }
    }

    /// The identifier the next attempt must use; `None` once every candidate
    /// has been attempted.
    pub fn pending_model(&self) -> (r: Option<String>)
        requires
            self.wf(),
        ensures
            match r {
                Some(m) => self.spec_next() < self.spec_models().len() && m@ == self.spec_models()[
                    self.spec_next()
                ],
                None => self.spec_next() == self.spec_models().len(),
            },
    {
        if self.next < self.models.len() {
            Some(self.models[self.next].clone())
        } else {
            None
        }
    }

    /// Judge one attempt's outcome. A transport failure or a non-404 HTTP
    /// failure ends the protocol at once, so later identifiers are never
    /// contacted; a success hands the body over for parsing; a 404 moves on
    /// to the next candidate, and a 404 on the last one fails with the full
    /// attempt list, in attempt order.
    pub fn record(&mut self, outcome: AttemptOutcome) -> (r: Option<LoopVerdict>)
        requires
            old(self).wf(),
            old(self).spec_next() < old(self).spec_models().len(),
        ensures
            final(self).wf(),
            final(self).spec_models() == old(self).spec_models(),
            match outcome {
                AttemptOutcome::Transport { message } => final(self).spec_next() == old(self).spec_next()
                    && (r matches Some(LoopVerdict::Fail(ImagoError::NetworkError(m))) && m@
                    == message@),
                AttemptOutcome::Http { status, body } => {
                    if 200 <= status < 300 {
                        final(self).spec_next() == old(self).spec_next() && (r matches Some(
                            LoopVerdict::ParseBody(b),
                        ) && b@ == body@)
                    } else if status == 404 {
                        final(self).spec_next() == old(self).spec_next() + 1 && (if final(self).spec_next()
                            == final(self).spec_models().len() {
                            r matches Some(LoopVerdict::Fail(ImagoError::ApiResponseError(m)))
                                && m@ == spec_exhausted_message(final(self).spec_models())
                        } else {
                            r is None
                        })
                    } else {
                        final(self).spec_next() == old(self).spec_next() && (r matches Some(
                            LoopVerdict::Fail(ImagoError::ApiError { status: s, message }),
                        ) && s == status && message@ == body@)
                    }
                },
            },
    {
        match outcome {
            AttemptOutcome::Transport { message } => Some(
                LoopVerdict::Fail(ImagoError::NetworkError(message)),
            ),
            AttemptOutcome::Http { status, body } => {
                if 200 <= status && status < 300 {
                    Some(LoopVerdict::ParseBody(body))
                } else if status == 404 {
                    let n = self.models.len();
                    proof {
                        assert(views_of(self.models@).len() == self.models@.len());
                    }
                    self.next = self.next + 1;
                    if self.next == n {
                        Some(
                            LoopVerdict::Fail(
                                ImagoError::ApiResponseError(
                                    String::from_str(
                                        "No available image model found. Tried: ",
                                    ).concat(join_strings(&self.models, ", ").as_str()),
                                ),
                            ),
                        )
                    } else {
                        None
                    }
                } else {
                    Some(LoopVerdict::Fail(ImagoError::ApiError { status, message: body }))
                }
            },
        }
    }
}

} // verus!
