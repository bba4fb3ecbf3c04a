use imago::codec::{decode_inline_payload, encode_payload, transport_round_trip};
use imago::error::ImagoError;
use imago::gemini::{
    build_request, exhaust_all_unavailable, serialize_request, AttemptOutcome, Candidate,
    CandidateContent, GeminiClient, GenerateContentResponse, InlineData, LoopVerdict,
    PromptFeedback, ResponsePart, SafetyRating, SubmissionLoop,
};

fn client(primary: &str) -> GeminiClient {
    GeminiClient::new("KEY".to_string(), primary.to_string())
}

fn response(
    candidates: Option<Vec<Candidate>>,
    prompt_feedback: Option<PromptFeedback>,
) -> GenerateContentResponse {
    GenerateContentResponse {
        candidates,
        prompt_feedback,
        usage_metadata: None,
    }
}

fn text_part(t: &str) -> ResponsePart {
    ResponsePart::Text {
        text: t.to_string(),
    }
}

fn image_part(mime: &str, data: String) -> ResponsePart {
    ResponsePart::InlineData {
        inline_data: InlineData {
            mime_type: mime.to_string(),
            data,
        },
    }
}

fn candidate(parts: Vec<ResponsePart>, finish: Option<&str>) -> Candidate {
    Candidate {
        content: Some(CandidateContent { parts }),
        finish_reason: finish.map(|s| s.to_string()),
        safety_ratings: None,
    }
}

#[test]
fn attempt_sequence_dedups_primary() {
    // The primary equals one of the fallbacks: it appears exactly once, first.
    let c = client("gemini-3-pro-image-preview");
    let models = c.attempt_models();
    assert_eq!(
        models,
        vec![
            "gemini-3-pro-image-preview".to_string(),
            "gemini-2.5-flash-image".to_string(),
            "gemini-3.1-flash-image-preview".to_string(),
            "gemini-2.0-flash-exp-image-generation".to_string(),
        ]
    );
    let hits = models
        .iter()
        .filter(|m| m.as_str() == "gemini-3-pro-image-preview")
        .count();
    assert_eq!(hits, 1);
}

#[test]
fn attempt_sequence_keeps_distinct_primary() {
    let c = client("custom-model");
    let models = c.attempt_models();
    assert_eq!(models.len(), 5);
    assert_eq!(models[0], "custom-model");
}

#[test]
fn submission_exhausts_on_all_404() {
    let c = client("custom-model");
    let mut sl = SubmissionLoop::new(&c);
    let mut attempted = Vec::new();
    let mut verdict = None;
    while let Some(model) = sl.pending_model() {
        attempted.push(model);
        match sl.record(AttemptOutcome::Http {
            status: 404,
            body: "not found".to_string(),
        }) {
            Some(v) => {
                verdict = Some(v);
                break;
            }
            None => continue,
        }
    }
    assert_eq!(
        attempted,
        vec![
            "custom-model".to_string(),
            "gemini-2.5-flash-image".to_string(),
            "gemini-3.1-flash-image-preview".to_string(),
            "gemini-3-pro-image-preview".to_string(),
            "gemini-2.0-flash-exp-image-generation".to_string(),
        ]
    );
    match verdict {
        Some(LoopVerdict::Fail(e)) => assert_eq!(
            e,
            ImagoError::ApiResponseError(
                "No available image model found. Tried: custom-model, gemini-2.5-flash-image, \
                 gemini-3.1-flash-image-preview, gemini-3-pro-image-preview, \
                 gemini-2.0-flash-exp-image-generation"
                    .to_string()
            )
        ),
        _ => panic!("expected exhaustion failure"),
    }
}

#[test]
fn exhaustion_trace_lists_each_model_once() {
    let c = client("gemini-2.5-flash-image");
    let (attempted, err) = exhaust_all_unavailable(&c);
    // The primary equals the first fallback, so four distinct attempts.
    assert_eq!(
        attempted,
        vec![
            "gemini-2.5-flash-image".to_string(),
            "gemini-3.1-flash-image-preview".to_string(),
            "gemini-3-pro-image-preview".to_string(),
            "gemini-2.0-flash-exp-image-generation".to_string(),
        ]
    );
    assert_eq!(
        err,
        ImagoError::ApiResponseError(
            "No available image model found. Tried: gemini-2.5-flash-image, \
             gemini-3.1-flash-image-preview, gemini-3-pro-image-preview, \
             gemini-2.0-flash-exp-image-generation"
                .to_string()
        )
    );
}

#[test]
fn submission_stops_on_non_404_failure() {
    let c = client("custom-model");
    let mut sl = SubmissionLoop::new(&c);
    let mut calls = 0;
    let mut verdict = None;
    while let Some(_model) = sl.pending_model() {
        calls += 1;
        match sl.record(AttemptOutcome::Http {
            status: 500,
            body: "server exploded".to_string(),
        }) {
            Some(v) => {
                verdict = Some(v);
                break;
            }
            None => continue,
        }
    }
    // The very first non-404 failure ends the protocol: one call only.
    assert_eq!(calls, 1);
    match verdict {
        Some(LoopVerdict::Fail(e)) => assert_eq!(
            e,
            ImagoError::ApiError {
                status: 500,
                message: "server exploded".to_string(),
            }
        ),
        _ => panic!("expected fatal failure"),
    }
}

#[test]
fn submission_hands_success_body_over() {
    let c = client("custom-model");
    let mut sl = SubmissionLoop::new(&c);
    assert!(sl.pending_model().is_some());
    match sl.record(AttemptOutcome::Http {
        status: 200,
        body: "{}".to_string(),
    }) {
        Some(LoopVerdict::ParseBody(b)) => assert_eq!(b, "{}"),
        _ => panic!("expected a body to parse"),
    }
}

#[test]
fn submission_fails_on_transport_error() {
    let c = client("custom-model");
    let mut sl = SubmissionLoop::new(&c);
    assert!(sl.pending_model().is_some());
    match sl.record(AttemptOutcome::Transport {
        message: "connection refused".to_string(),
    }) {
        Some(LoopVerdict::Fail(e)) => {
            assert_eq!(e, ImagoError::NetworkError("connection refused".to_string()))
        }
        _ => panic!("expected a network failure"),
    }
}

#[test]
fn submission_404_then_success() {
    let c = client("custom-model");
    let mut sl = SubmissionLoop::new(&c);
    let first = sl.pending_model().unwrap();
    assert_eq!(first, "custom-model");
    assert!(sl
        .record(AttemptOutcome::Http {
            status: 404,
            body: "nope".to_string(),
        })
        .is_none());
    let second = sl.pending_model().unwrap();
    assert_eq!(second, "gemini-2.5-flash-image");
    match sl.record(AttemptOutcome::Http {
        status: 200,
        body: "body".to_string(),
    }) {
        Some(LoopVerdict::ParseBody(b)) => assert_eq!(b, "body"),
        _ => panic!("expected a body to parse"),
    }
}

#[test]
fn feedback_block_precedes_candidate_parsing() {
    // Prompt feedback with a block reason wins even over an image candidate.
    let c = client("m");
    let img = encode_payload(&b"PNGDATA".to_vec());
    let resp = response(
        Some(vec![candidate(
            vec![image_part("image/png", img)],
            Some("STOP"),
        )]),
        Some(PromptFeedback {
            safety_ratings: None,
            block_reason: Some("SAFETY".to_string()),
        }),
    );
    assert_eq!(
        c.extract_image_data(resp),
        Err(ImagoError::SafetyFilter("Request blocked: SAFETY".to_string()))
    );
}

#[test]
fn image_safety_finish_reason_uses_generic_message() {
    let c = client("m");
    let resp = response(
        Some(vec![Candidate {
            content: None,
            finish_reason: Some("IMAGE_SAFETY".to_string()),
            safety_ratings: None,
        }]),
        None,
    );
    assert_eq!(
        c.extract_image_data(resp),
        Err(ImagoError::SafetyFilter(
            "Image content blocked by safety filters".to_string()
        ))
    );
}

#[test]
fn blocked_ratings_join_in_order() {
    let c = client("m");
    let resp = response(
        Some(vec![Candidate {
            content: None,
            finish_reason: Some("SAFETY".to_string()),
            safety_ratings: Some(vec![
                SafetyRating {
                    category: "HARM_CATEGORY_A".to_string(),
                    probability: "HIGH".to_string(),
                    blocked: Some(true),
                },
                SafetyRating {
                    category: "HARM_CATEGORY_B".to_string(),
                    probability: "LOW".to_string(),
                    blocked: Some(false),
                },
                SafetyRating {
                    category: "HARM_CATEGORY_C".to_string(),
                    probability: "MEDIUM".to_string(),
                    blocked: Some(true),
                },
            ]),
        }]),
        None,
    );
    assert_eq!(
        c.extract_image_data(resp),
        Err(ImagoError::SafetyFilter(
            "HARM_CATEGORY_A: HIGH, HARM_CATEGORY_C: MEDIUM".to_string()
        ))
    );
}

#[test]
fn text_only_reply_is_an_api_response_error() {
    let c = client("m");
    let resp = response(
        Some(vec![candidate(
            vec![text_part("sorry, can't help")],
            Some("STOP"),
        )]),
        None,
    );
    assert_eq!(
        c.extract_image_data(resp),
        Err(ImagoError::ApiResponseError(
            "Model returned text instead of image: sorry, can't help".to_string()
        ))
    );
}

#[test]
fn text_then_image_succeeds_with_both() {
    let c = client("m");
    let img = encode_payload(&b"PNGDATA".to_vec());
    let resp = response(
        Some(vec![candidate(
            vec![text_part("here you go"), image_part("image/png", img)],
            Some("STOP"),
        )]),
        None,
    );
    assert_eq!(
        c.extract_image_data(resp),
        Ok((b"PNGDATA".to_vec(), Some("here you go".to_string())))
    );
}

#[test]
fn last_text_before_image_wins() {
    let c = client("m");
    let img = encode_payload(&b"X".to_vec());
    let resp = response(
        Some(vec![candidate(
            vec![
                text_part("first"),
                text_part("second"),
                image_part("image/png", img),
            ],
            Some("STOP"),
        )]),
        None,
    );
    assert_eq!(
        c.extract_image_data(resp),
        Ok((b"X".to_vec(), Some("second".to_string())))
    );
}

#[test]
fn non_image_inline_data_is_skipped() {
    let c = client("m");
    let good = encode_payload(&b"GOOD".to_vec());
    let bad = encode_payload(&b"BAD".to_vec());
    let resp = response(
        Some(vec![candidate(
            vec![
                image_part("application/json", bad),
                image_part("image/webp", good),
            ],
            Some("STOP"),
        )]),
        None,
    );
    assert_eq!(c.extract_image_data(resp), Ok((b"GOOD".to_vec(), None)));
}

#[test]
fn non_stop_reason_without_evidence_falls_through() {
    let c = client("m");
    let img = encode_payload(&b"OK".to_vec());
    let resp = response(
        Some(vec![candidate(
            vec![image_part("image/png", img)],
            Some("MAX_TOKENS"),
        )]),
        None,
    );
    assert_eq!(c.extract_image_data(resp), Ok((b"OK".to_vec(), None)));
}

#[test]
fn missing_candidates_is_no_image_data() {
    let c = client("m");
    assert_eq!(
        c.extract_image_data(response(None, None)),
        Err(ImagoError::NoImageData)
    );
    assert_eq!(
        c.extract_image_data(response(Some(vec![]), None)),
        Err(ImagoError::NoImageData)
    );
    let no_parts = response(Some(vec![candidate(vec![], Some("STOP"))]), None);
    assert_eq!(c.extract_image_data(no_parts), Err(ImagoError::NoImageData));
}

#[test]
fn empty_block_reason_does_not_block() {
    let c = client("m");
    let img = encode_payload(&b"OK".to_vec());
    let resp = response(
        Some(vec![candidate(vec![image_part("image/png", img)], Some("STOP"))]),
        Some(PromptFeedback {
            safety_ratings: None,
            block_reason: Some(String::new()),
        }),
    );
    assert_eq!(c.extract_image_data(resp), Ok((b"OK".to_vec(), None)));
}

#[test]
fn round_trip_returns_original_bytes() {
    assert_eq!(transport_round_trip(&Vec::new()), Vec::<u8>::new());
    let bytes = vec![0u8, 255, 254, 128, 7, 42];
    assert_eq!(transport_round_trip(&bytes), bytes);
    let mut all = Vec::new();
    let mut b = 0u16;
    while b < 256 {
        all.push(b as u8);
        b += 1;
    }
    assert_eq!(transport_round_trip(&all), all);
}

#[test]
fn encode_payload_matches_standard_base64() {
    assert_eq!(encode_payload(&b"PNGDATA".to_vec()), "UE5HREFUQQ==");
    assert_eq!(encode_payload(&Vec::new()), "");
}

#[test]
fn malformed_payload_is_a_decode_error() {
    match decode_inline_payload("!!!") {
        Err(ImagoError::Base64Error(_)) => {}
        other => panic!("expected a decoding error, got {:?}", other),
    }
    assert_eq!(decode_inline_payload("UE5HREFUQQ=="), Ok(b"PNGDATA".to_vec()));
}

#[test]
fn request_url_embeds_model_and_key() {
    let c = GeminiClient::new("SECRET".to_string(), "primary".to_string());
    assert_eq!(
        c.request_url("other-model"),
        "https://generativelanguage.googleapis.com/v1beta/models/other-model:generateContent?key=SECRET"
    );
}

#[test]
fn serialized_request_is_exact_json() {
    let req = build_request("a sunset");
    assert_eq!(
        serialize_request(&req),
        "{\"contents\":[{\"parts\":[{\"text\":\"a sunset\"}]}],\
         \"generationConfig\":{\"responseModalities\":[\"IMAGE\"]}}"
    );
}

#[test]
fn serialized_request_escapes_the_prompt() {
    let req = build_request("say \"hi\"\\\n\u{1}");
    let body = serialize_request(&req);
    assert_eq!(
        body,
        "{\"contents\":[{\"parts\":[{\"text\":\"say \\\"hi\\\"\\\\\\n\\u0001\"}]}],\
         \"generationConfig\":{\"responseModalities\":[\"IMAGE\"]}}"
    );
    // The body must round-trip through a real JSON parser back to the prompt.
    let v: serde_json::Value = serde_json::from_str(&body).unwrap();
    assert_eq!(
        v["contents"][0]["parts"][0]["text"],
        serde_json::Value::String("say \"hi\"\\\n\u{1}".to_string())
    );
}
