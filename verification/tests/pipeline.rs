use embeddings_server::batch::replacements_needed;
use embeddings_server::{
    build, decode_request, normalize, normalize_batch, reply_status, respond, root,
    EmbeddingsRequest, EmbeddingsResponse, NormalizedEmbedding, PipelineError, Usage,
};

fn request_of(model: &str, texts: &[&str]) -> EmbeddingsRequest {
    EmbeddingsRequest::new(
        model.to_string(),
        texts.iter().map(|t| t.to_string()).collect(),
        None,
    )
    .unwrap()
}

fn replacement(seed: u32) -> Vec<u32> {
    let mut values: Vec<f32> = Vec::new();
    for i in 0..768u32 {
        let x = ((i * 7 + seed) % 13 + 1) as f32 / 16.0;
        values.push(if (i + seed) % 2 == 0 { x } else { -x });
    }
    let norm: f32 = values.iter().map(|x| x * x).sum::<f32>().sqrt();
    values.iter().map(|x| (x / norm).to_bits()).collect()
}

fn embedding_of(values: &[f32]) -> NormalizedEmbedding {
    let raw: Vec<u32> = values.iter().map(|x| x.to_bits()).collect();
    normalize(&raw, None).unwrap()
}

/// Stands for the model: counts its calls and answers one short vector per text.
fn stub_model(calls: &mut usize, texts: &Vec<String>) -> Vec<Vec<u32>> {
    *calls += 1;
    texts
        .iter()
        .map(|t| vec![(t.len() as f32 + 1.0).to_bits(), 0.5f32.to_bits()])
        .collect()
}

/// One request as the server handles it, with the stub in place of the model.
fn serve(calls: &mut usize, body: &[u8]) -> Result<EmbeddingsResponse, PipelineError> {
    let request = decode_request(body)?;
    let raws = stub_model(calls, request.input());
    let supply: Vec<Vec<u32>> =
        (0..replacements_needed(&raws)).map(|k| replacement(k as u32)).collect();
    respond(&request, &raws, &supply)
}

#[test]
fn test_root() {
    assert_eq!(root(), "Hello, World!");
    assert_eq!(root().as_bytes(), b"Hello, World!");
}

#[test]
fn test_embeddings_create() {
    let body = openai_api_rust::embeddings::EmbeddingsBody {
        model: "nomic-text-embed".to_string(),
        input: vec!["The food was delicious and the waiter...".to_string()],
        user: None,
    };
    let text = serde_json::to_string(&body).unwrap();
    let mut calls = 0;
    let outcome = serve(&mut calls, text.as_bytes());
    assert_eq!(reply_status(&outcome), 200);
    let response = outcome.unwrap();
    assert_eq!(calls, 1);
    assert_eq!(response.object, "list");
    assert_eq!(response.data.len(), 1);
    assert_eq!(response.model, "nomic-text-embed");
    assert_eq!(response.data[0].object, "embedding");
    assert_eq!(response.data[0].index, 0);
    assert_eq!(response.data[0].embedding.components().len(), 768);
    assert_eq!(response.usage.total_tokens, 0);
    assert_eq!(response.usage.prompt_tokens, 0);
}

#[test]
fn empty_input_never_reaches_the_model() {
    let mut calls = 0;
    let outcome = serve(&mut calls, br#"{"model":"nomic-text-embed","input":[]}"#);
    assert_eq!(calls, 0);
    assert_ne!(reply_status(&outcome), 200);
    assert_eq!(reply_status(&outcome), 422);
    assert_eq!(outcome.unwrap_err(), PipelineError::EmptyInput);
}

#[test]
fn malformed_json_never_reaches_the_model() {
    let mut calls = 0;
    let outcome = serve(&mut calls, br#"{"model": "nomic-text-embed", "input": ["a""#);
    assert_eq!(calls, 0);
    let status = reply_status(&outcome);
    assert!((400..500).contains(&status));
    assert_eq!(status, 400);
    assert_eq!(outcome.unwrap_err(), PipelineError::MalformedBody);
}

#[test]
fn build_numbers_the_entries_in_order() {
    let embeddings = vec![
        embedding_of(&[1.0]),
        embedding_of(&[2.0, 2.5]),
        embedding_of(&[3.0]),
        embedding_of(&[4.0]),
    ];
    let response = build(embeddings, "some-model".to_string());
    assert_eq!(response.object, "list");
    assert_eq!(response.model, "some-model");
    assert_eq!(response.usage, Usage { prompt_tokens: 0, total_tokens: 0 });
    assert_eq!(response.data.len(), 4);
    for (i, entry) in response.data.iter().enumerate() {
        assert_eq!(entry.index, i);
        assert_eq!(entry.object, "embedding");
        assert_eq!(entry.embedding.components().len(), 768);
        assert_eq!(entry.embedding.components()[0], (i as f32 + 1.0).to_bits());
    }
    assert_eq!(response.data[1].embedding.components()[1], 2.5f32.to_bits());
}

#[test]
fn build_of_nothing_is_an_empty_list() {
    let response = build(Vec::new(), String::new());
    assert_eq!(response.object, "list");
    assert_eq!(response.model, "");
    assert!(response.data.is_empty());
    assert_eq!(response.usage.total_tokens, 0);
}

#[test]
fn respond_gives_one_entry_per_text() {
    let request = request_of("m", &["a", "bb", "ccc"]);
    let raws = vec![
        vec![1.0f32.to_bits()],
        vec![2.0f32.to_bits(); 768],
        vec![3.0f32.to_bits(); 10],
    ];
    let response = respond(&request, &raws, &Vec::new()).unwrap();
    assert_eq!(response.model, "m");
    assert_eq!(response.data.len(), 3);
    for (i, entry) in response.data.iter().enumerate() {
        assert_eq!(entry.index, i);
        let c = entry.embedding.components();
        assert_eq!(c.len(), 768);
        assert_eq!(&c[..raws[i].len()], &raws[i][..]);
        assert!(c[raws[i].len()..].iter().all(|&b| b == 0));
    }
}

#[test]
fn respond_refuses_a_batch_of_the_wrong_size() {
    let request = request_of("m", &["a", "b"]);
    let one = vec![vec![1.0f32.to_bits()]];
    assert_eq!(respond(&request, &one, &Vec::new()).unwrap_err(), PipelineError::BatchMismatch);
    let three = vec![vec![1.0f32.to_bits()]; 3];
    assert_eq!(
        respond(&request, &three, &Vec::new()).unwrap_err(),
        PipelineError::BatchMismatch
    );
    let none: Vec<Vec<u32>> = Vec::new();
    let outcome = respond(&request, &none, &Vec::new());
    assert_eq!(reply_status(&outcome), 500);
    assert_eq!(outcome.unwrap_err(), PipelineError::BatchMismatch);
}

#[test]
fn respond_replaces_dead_vectors_in_order_of_supply() {
    let request = request_of("m", &["a", "b", "c", "d"]);
    let raws = vec![vec![0u32; 768], vec![0.5f32.to_bits()], Vec::new(), vec![0x8000_0000u32; 5]];
    assert_eq!(replacements_needed(&raws), 3);
    let supply = vec![replacement(1), replacement(2), replacement(3), replacement(4)];
    let response = respond(&request, &raws, &supply).unwrap();
    assert_eq!(response.data.len(), 4);
    assert_eq!(response.data[0].embedding.components(), &supply[0]);
    assert_eq!(response.data[1].embedding.components()[0], 0.5f32.to_bits());
    assert_eq!(response.data[1].embedding.components()[1], 0);
    assert_eq!(response.data[2].embedding.components(), &supply[1]);
    assert_eq!(response.data[3].embedding.components(), &supply[2]);
    for (i, entry) in response.data.iter().enumerate() {
        assert_eq!(entry.index, i);
    }
}

#[test]
fn respond_fails_when_the_supply_runs_out() {
    let request = request_of("m", &["a", "b"]);
    let raws = vec![vec![0u32; 4], vec![0u32; 4]];
    let supply = vec![replacement(1)];
    assert_eq!(
        respond(&request, &raws, &supply).unwrap_err(),
        PipelineError::ReplacementRejected
    );
    assert_eq!(
        respond(&request, &raws, &Vec::new()).unwrap_err(),
        PipelineError::ReplacementRejected
    );
}

#[test]
fn respond_fails_with_the_first_failure() {
    let request = request_of("m", &["a", "b", "c"]);
    let raws = vec![vec![1.0f32.to_bits()], vec![1.0f32.to_bits(); 800], vec![0u32; 4]];
    assert_eq!(
        respond(&request, &raws, &Vec::new()).unwrap_err(),
        PipelineError::OversizedEmbedding
    );
    let raws = vec![vec![1.0f32.to_bits()], vec![0u32; 4], vec![1.0f32.to_bits(); 800]];
    let outcome = respond(&request, &raws, &Vec::new());
    assert_eq!(reply_status(&outcome), 500);
    assert_eq!(outcome.unwrap_err(), PipelineError::ReplacementRejected);
    let supply = vec![replacement(9)];
    assert_eq!(
        respond(&request, &raws, &supply).unwrap_err(),
        PipelineError::OversizedEmbedding
    );
}

#[test]
fn respond_rejects_a_bad_replacement() {
    let request = request_of("m", &["a"]);
    let raws = vec![vec![0u32; 4]];
    let mut bad = replacement(1);
    bad[10] = 0;
    assert_eq!(
        respond(&request, &raws, &vec![bad]).unwrap_err(),
        PipelineError::ReplacementRejected
    );
}

#[test]
fn normalize_batch_keeps_length_and_order() {
    let raws = vec![vec![7u32], vec![0u32], vec![9u32, 0, 0]];
    let supply = vec![replacement(5)];
    let out = normalize_batch(&raws, &supply).unwrap();
    assert_eq!(out.len(), 3);
    assert_eq!(out[0].components()[0], 7);
    assert_eq!(out[1].components(), &supply[0]);
    assert_eq!(out[2].components()[0], 9);
    assert!(out.iter().all(|e| e.components().len() == 768));
}

#[test]
fn normalize_batch_of_nothing() {
    let out = normalize_batch(&Vec::new(), &Vec::new()).unwrap();
    assert!(out.is_empty());
    assert_eq!(replacements_needed(&Vec::new()), 0);
}

#[test]
fn replacements_needed_counts_dead_vectors() {
    assert_eq!(replacements_needed(&vec![vec![1u32], vec![2u32]]), 0);
    assert_eq!(replacements_needed(&vec![vec![0u32], vec![2u32], Vec::new()]), 2);
    assert_eq!(replacements_needed(&vec![vec![0u32, 0x8000_0000]; 5]), 5);
}

#[test]
fn reply_status_is_200_only_for_a_response() {
    let ok: Result<EmbeddingsResponse, PipelineError> = Ok(build(Vec::new(), "m".to_string()));
    assert_eq!(reply_status(&ok), 200);
    assert_eq!(reply_status(&Err(PipelineError::MalformedBody)), 400);
    assert_eq!(reply_status(&Err(PipelineError::EmptyInput)), 422);
    assert_eq!(reply_status(&Err(PipelineError::ProviderFailed)), 500);
    assert_eq!(reply_status(&Err(PipelineError::BatchMismatch)), 500);
    assert_eq!(reply_status(&Err(PipelineError::OversizedEmbedding)), 500);
    assert_eq!(reply_status(&Err(PipelineError::ReplacementRejected)), 500);
}

#[test]
fn model_name_is_echoed_verbatim() {
    let request = request_of("  Any Model/Name \u{e9} ", &["x"]);
    let response = respond(&request, &vec![vec![1u32]], &Vec::new()).unwrap();
    assert_eq!(response.model, "  Any Model/Name \u{e9} ");
}
