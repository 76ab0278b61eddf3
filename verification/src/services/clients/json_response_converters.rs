//! The decoder: from a JSON document of the backend to a typed response.
//!
//! The backend promises nothing about the shape of its answers, so the
//! decoder validates nothing. A field that is missing or of the wrong type
//! becomes the zero value of its type. The one document that is refused is
//! a metadata answer that is not an object.
use serde_json::Value;
use vstd::prelude::*;

use crate::json::{
    json_model, json_models, json_text, lists_members, value_as_double, value_entries, value_get,
    value_to_string, Json,
};
use crate::proto::mighty_proto::{
    distinct_keys, embedding_views, is_last_of_key, lemma_pairs_to_map, Double, Embedding,
    EmbeddingsModel, EmbeddingsResponse, Entity, EntityModel, MetadataResponse,
    QuestionAnswerModel, QuestionAnswerResponse, SentenceTransformersResponse,
    SequenceClassificationModel, SequenceClassificationResponse, Shape, TokenClassificationModel,
    TokenClassificationResponse,
};
use crate::status::Status;

verus! {

/// The string under `key`, or the empty string where the key is missing or
/// holds no string.
pub open spec fn string_value_of(m: Json, key: Seq<char>) -> Seq<char> {
    match m.get(key) {
        Some(member) => match member.as_str() {
            Some(s) => s,
            None => Seq::empty(),
        },
        None => Seq::empty(),
    }
}

/// An integer as a 32-bit field holds it: the one integer from `i32::MIN`
/// to `i32::MAX` that differs from `n` by a multiple of 2^32.
pub open spec fn wrap_to_i32(n: int) -> i32 {
    ((n + 0x8000_0000) % 0x1_0000_0000 - 0x8000_0000) as i32
}

/// A signed integer as a 32-bit field holds it, or 0 where there is none.
pub open spec fn low_word_or_zero(n: Option<i64>) -> i32 {
    match n {
        Some(n) => wrap_to_i32(n as int),
        None => 0,
    }
}

/// The element at `index` as a 32-bit integer, or 0 where the sequence is
/// shorter or the element is no integer.
pub open spec fn int_at(items: Seq<Json>, index: int) -> i32 {
    if 0 <= index < items.len() {
        low_word_or_zero(items[index].as_i64())
    } else {
        0
    }
}

/// The milliseconds under `took`, or 0.
pub open spec fn took_of(m: Json) -> i32 {
    match m.get("took"@) {
        Some(member) => low_word_or_zero(member.as_i64()),
        None => 0,
    }
}

/// The shape under `shape`: absent where the key is missing or holds no
/// array, and otherwise the first two elements of the array.
pub open spec fn shape_of(m: Json) -> Option<Shape> {
    match m.get("shape"@) {
        Some(member) => match member.as_array() {
            Some(dims) => Some(Shape { dim1: int_at(dims, 0), dim2: int_at(dims, 1) }),
            None => None,
        },
        None => None,
    }
}

/// The elements of the array under `key`, or none where the key is missing
/// or holds no array.
pub open spec fn array_at(m: Json, key: Seq<char>) -> Seq<Json> {
    match m.get(key) {
        Some(member) => elements_of(member),
        None => Seq::empty(),
    }
}

/// The elements of an array, or none where the document is no array.
pub open spec fn elements_of(m: Json) -> Seq<Json> {
    match m.as_array() {
        Some(items) => items,
        None => Seq::empty(),
    }
}

/// The number in double precision, or zero where the document is no number.
pub open spec fn double_or_zero(m: Json) -> Double {
    match m.as_double() {
        Some(d) => d,
        None => Double::zero(),
    }
}

/// The score of an entity: the number under `score`, or zero.
pub open spec fn score_of(entity: Json) -> Double {
    match entity.get("score"@) {
        Some(member) => double_or_zero(member),
        None => Double::zero(),
    }
}

/// One end of an entity's span: the element at `index` of the array under
/// `offsets`, or 0 where the key is missing, holds no array, the array is
/// shorter, or the element is no integer.
pub open spec fn offset_of(entity: Json, index: int) -> i32 {
    int_at(array_at(entity, "offsets"@), index)
}

/// The entity that one element of `entities` denotes.
pub open spec fn entity_of(entity: Json) -> EntityModel {
    EntityModel {
        id: string_value_of(entity, "id"@),
        label: string_value_of(entity, "label"@),
        text: string_value_of(entity, "text"@),
        score: score_of(entity),
        start_offset: offset_of(entity, 0),
        end_offset: offset_of(entity, 1),
    }
}

/// The response that a token-classification answer denotes.
pub open spec fn decode_token_classification(m: Json) -> TokenClassificationModel {
    TokenClassificationModel {
        took: took_of(m),
        text: string_value_of(m, "text"@),
        entities: array_at(m, "entities"@).map_values(|entity: Json| entity_of(entity)),
        shape: shape_of(m),
    }
}

/// The numbers among the elements of a row, in order. An element that is
/// no number is left out.
pub open spec fn numbers_of(row: Seq<Json>) -> Seq<Double> {
    row.filter_map(|item: Json| item.as_double())
}

/// The embeddings under `outputs`: one for every element of the array, in
/// order, made of the numbers of that element. An element that is no array
/// gives an embedding without values.
pub open spec fn embeddings_of(m: Json) -> Seq<Seq<Double>> {
    array_at(m, "outputs"@).map_values(|row: Json| numbers_of(elements_of(row)))
}

/// The response that an embeddings answer denotes.
pub open spec fn decode_embeddings(m: Json) -> EmbeddingsModel {
    EmbeddingsModel {
        embeddings: embeddings_of(m),
        took: took_of(m),
        text: string_value_of(m, "text"@),
        shape: shape_of(m),
    }
}

/// The elements of a row of scores, in order, each in double precision. An
/// element that is no number counts as zero.
pub open spec fn scores_of(row: Seq<Json>) -> Seq<Double> {
    row.map_values(|item: Json| double_or_zero(item))
}

/// The rows of the matrix under `logits`. An element that is no array gives
/// an empty row.
pub open spec fn logit_rows_of(m: Json) -> Seq<Seq<Double>> {
    array_at(m, "logits"@).map_values(|row: Json| scores_of(elements_of(row)))
}

/// The response that a sequence-classification answer denotes: its logits
/// are the rows of the matrix, one after the other.
pub open spec fn decode_sequence_classification(m: Json) -> SequenceClassificationModel {
    SequenceClassificationModel {
        text: string_value_of(m, "text"@),
        logits: logit_rows_of(m).flatten(),
        took: took_of(m),
        shape: shape_of(m),
    }
}

/// The position under `key`: an unsigned integer as a 32-bit field holds
/// it, or 0 where the key is missing or holds none.
pub open spec fn index_value_of(m: Json, key: Seq<char>) -> i32 {
    match m.get(key) {
        Some(member) => match member.as_u64() {
            Some(n) => wrap_to_i32(n as int),
            None => 0,
        },
        None => 0,
    }
}

/// The response that a question-answering answer denotes for the question
/// and context that were asked.
pub open spec fn decode_question_answer(
    m: Json,
    question: Seq<char>,
    context: Seq<char>,
) -> QuestionAnswerModel {
    QuestionAnswerModel {
        answer: string_value_of(m, "answer"@),
        start_idx: index_value_of(m, "start_idx"@),
        end_idx: index_value_of(m, "end_idx"@),
        question,
        context,
        took: took_of(m),
    }
}

/// The message of the error for a metadata answer that is no object.
pub const NOT_AN_OBJECT: &'static str = "Failed to parse metadata JSON as object";

/// The text that stands for one metadata value: the characters of a
/// string as they are, without quotes or escapes, and the compact JSON text
/// of anything else. An array is written with nothing between a comma and
/// the next element, and the strings in it keep every character.
pub open spec fn metadata_text(value: Json) -> Seq<char> {
    match value {
        Json::String(s) => s,
        _ => json_text(value),
    }
}

/// The metadata that an answer denotes: for an object, the text of each
/// member under the member's key; for anything else, nothing.
pub open spec fn decode_metadata(m: Json) -> Option<Map<Seq<char>, Seq<char>>> {
    match m {
        Json::Object(members) => Some(members.map_values(|value: Json| metadata_text(value))),
        _ => None,
    }
}

fn low_word_of_signed(n: i64) -> (word: i32)
    ensures
        word == wrap_to_i32(n as int),
{
    proof {
        assert((n as i32) as int == (((n as i128 + 0x8000_0000_8000_0000i128) as u128)
            % 0x1_0000_0000u128) as int - 0x8000_0000) by (bit_vector);
        vstd::arithmetic::div_mod::lemma_mod_multiples_vanish(
            0x8000_0000,
            n as int + 0x8000_0000,
            0x1_0000_0000,
        );
    }
    #[verifier::truncate]
    (n as i32)
}

fn low_word_of_unsigned(n: u64) -> (word: i32)
    ensures
        word == wrap_to_i32(n as int),
{
    proof {
        assert((n as i32) as int == (((n as u128 + 0x8000_0000u128) as u128)
            % 0x1_0000_0000u128) as int - 0x8000_0000) by (bit_vector);
    }
    #[verifier::truncate]
    (n as i32)
}

fn extract_int_at(items: &Vec<Value>, index: usize) -> (n: i32)
    ensures
        n == int_at(json_models(items@), index as int),
{
    if index < items.len() {
        match items[index].as_i64() {
            Some(n) => low_word_of_signed(n),
            None => 0,
        }
    } else {
        0
    }
}

/// Reads the string under `key`.
pub fn extract_string_value(json: &Value, key: &str) -> (s: String)
    ensures
        s@ == string_value_of(json_model(*json), key@),
{
    match value_get(json, key) {
        Some(member) => match member.as_str() {
            Some(s) => s.to_owned(),
            None => String::new(),
        },
        None => String::new(),
    }
}

/// Reads the shape of the backend's tensor.
pub fn extract_shape(json: &Value) -> (shape: Option<Shape>)
    ensures
        shape == shape_of(json_model(*json)),
{
    match value_get(json, "shape") {
        Some(member) => match member.as_array() {
            Some(dims) => Some(
                Shape { dim1: extract_int_at(dims, 0), dim2: extract_int_at(dims, 1) },
            ),
            None => None,
        },
        None => None,
    }
}

/// Reads the time that the backend took, in milliseconds.
pub fn extract_took(json: &Value) -> (took: i32)
    ensures
        took == took_of(json_model(*json)),
{
    match value_get(json, "took") {
        Some(member) => match member.as_i64() {
            Some(n) => low_word_of_signed(n),
            None => 0,
        },
        None => 0,
    }
}

fn extract_array<'a>(json: &'a Value, key: &str) -> (items: Option<&'a Vec<Value>>)
    ensures
        match items {
            Some(items) => array_at(json_model(*json), key@) == json_models(items@),
            None => array_at(json_model(*json), key@) == Seq::<Json>::empty(),
        },
{
    match value_get(json, key) {
        Some(member) => member.as_array(),
        None => None,
    }
}

fn extract_score(entity: &Value) -> (score: Double)
    ensures
        score == score_of(json_model(*entity)),
{
    match value_get(entity, "score") {
        Some(member) => match value_as_double(member) {
            Some(d) => d,
            None => Double { bits: 0 },
        },
        None => Double { bits: 0 },
    }
}

fn extract_offset(entity: &Value, index: usize) -> (offset: i32)
    ensures
        offset == offset_of(json_model(*entity), index as int),
{
    match extract_array(entity, "offsets") {
        Some(pair) => extract_int_at(pair, index),
        None => 0,
    }
}

fn extract_entity(entity: &Value) -> (e: Entity)
    ensures
        e@ == entity_of(json_model(*entity)),
{
    Entity {
        id: extract_string_value(entity, "id"),
        label: extract_string_value(entity, "label"),
        text: extract_string_value(entity, "text"),
        score: extract_score(entity),
        start_offset: extract_offset(entity, 0),
        end_offset: extract_offset(entity, 1),
    }
}

/// Decodes the answer to a token-classification request. Every element of
/// `entities` gives one entity, in order; the decoder refuses no document.
pub fn json_to_token_classification_response(json: &Value) -> (response: Result<
    TokenClassificationResponse,
    Status,
>)
    ensures
        response matches Ok(r) && r@ == decode_token_classification(json_model(*json)),
{
    let mut entities: Vec<Entity> = Vec::new();
    if let Some(items) = extract_array(json, "entities") {
        let mut i: usize = 0;
        while i < items.len()
            invariant
                i <= items.len(),
                entities@.len() == i,
                forall|j: int|
                    0 <= j < i ==> (#[trigger] entities@[j])@ == entity_of(json_model(items@[j])),
            decreases items.len() - i,
        {
            entities.push(extract_entity(&items[i]));
            i += 1;
        }
    }
    let response = TokenClassificationResponse {
        took: extract_took(json),
        text: extract_string_value(json, "text"),
        entities,
        shape: extract_shape(json),
    };
    assert(response@.entities == decode_token_classification(json_model(*json)).entities);
    Ok(response)
}

fn extract_numbers(row: &Value) -> (values: Vec<Double>)
    ensures
        values@ == numbers_of(elements_of(json_model(*row))),
{
    let mut values: Vec<Double> = Vec::new();
    if let Some(items) = row.as_array() {
        let ghost models = json_models(items@);
        let mut i: usize = 0;
        while i < items.len()
            invariant
                i <= items.len(),
                models == json_models(items@),
                values@ == numbers_of(models.take(i as int)),
            decreases items.len() - i,
        {
            proof {
                models.lemma_filter_map_take_succ(|item: Json| item.as_double(), i as int);
            }
            if let Some(d) = value_as_double(&items[i]) {
                values.push(d);
            }
            i += 1;
        }
        assert(models.take(i as int) == models);
    }
    values
}

fn extract_embeddings(json: &Value) -> (embeddings: Vec<Embedding>)
    ensures
        embedding_views(embeddings@) == embeddings_of(json_model(*json)),
{
    let mut embeddings: Vec<Embedding> = Vec::new();
    if let Some(rows) = extract_array(json, "outputs") {
        let mut i: usize = 0;
        while i < rows.len()
            invariant
                i <= rows.len(),
                embeddings@.len() == i,
                forall|j: int|
                    0 <= j < i ==> (#[trigger] embeddings@[j])@ == numbers_of(
                        elements_of(json_model(rows@[j])),
                    ),
            decreases rows.len() - i,
        {
            embeddings.push(Embedding { values: extract_numbers(&rows[i]) });
            i += 1;
        }
    }
    assert(embedding_views(embeddings@) == embeddings_of(json_model(*json)));
    embeddings
}

/// Decodes the answer to an embeddings request; the decoder refuses no
/// document.
pub fn json_to_embeddings_response(json: &Value) -> (response: Result<EmbeddingsResponse, Status>)
    ensures
        response matches Ok(r) && r@ == decode_embeddings(json_model(*json)),
{
    Ok(
        EmbeddingsResponse {
            embeddings: extract_embeddings(json),
            took: extract_took(json),
            text: extract_string_value(json, "text"),
            shape: extract_shape(json),
        },
    )
}

/// Decodes the answer to a sentence-embedding request, which has the shape
/// of an embeddings answer; the decoder refuses no document.
pub fn json_to_sentence_transformers_response(json: &Value) -> (response: Result<
    SentenceTransformersResponse,
    Status,
>)
    ensures
        response matches Ok(r) && r@ == decode_embeddings(json_model(*json)),
{
    Ok(
        SentenceTransformersResponse {
            embeddings: extract_embeddings(json),
            took: extract_took(json),
            text: extract_string_value(json, "text"),
            shape: extract_shape(json),
        },
    )
}

fn extract_index_value(json: &Value, key: &str) -> (index: i32)
    ensures
        index == index_value_of(json_model(*json), key@),
{
    match value_get(json, key) {
        Some(member) => match member.as_u64() {
            Some(n) => low_word_of_unsigned(n),
            None => 0,
        },
        None => 0,
    }
}

/// Decodes the answer to a question-answering request. The question and
/// the context of the response are the ones handed in, whatever the
/// document holds; the decoder refuses no document.
pub fn json_to_question_answer_response(
    json: &Value,
    question: String,
    context: String,
) -> (response: Result<QuestionAnswerResponse, Status>)
    ensures
        response matches Ok(r) && r@ == decode_question_answer(
            json_model(*json),
            question@,
            context@,
        ),
{
    Ok(
        QuestionAnswerResponse {
            answer: extract_string_value(json, "answer"),
            start_idx: extract_index_value(json, "start_idx"),
            end_idx: extract_index_value(json, "end_idx"),
            question,
            context,
            took: extract_took(json),
        },
    )
}

fn append_scores(logits: &mut Vec<Double>, row: &Value)
    ensures
        final(logits)@ == old(logits)@ + scores_of(elements_of(json_model(*row))),
{
    if let Some(items) = row.as_array() {
        let mut i: usize = 0;
        while i < items.len()
            invariant
                i <= items.len(),
                logits@ == old(logits)@ + scores_of(json_models(items@).take(i as int)),
            decreases items.len() - i,
        {
            let score = match value_as_double(&items[i]) {
                Some(d) => d,
                None => Double { bits: 0 },
            };
            logits.push(score);
            assert(scores_of(json_models(items@).take(i + 1)) == scores_of(
                json_models(items@).take(i as int),
            ).push(score));
            i += 1;
        }
        assert(json_models(items@).take(i as int) == json_models(items@));
    }
}

/// Decodes the answer to a sequence-classification request: the matrix
/// under `logits` row by row; the decoder refuses no document.
pub fn json_to_sequence_classification_response(json: &Value) -> (response: Result<
    SequenceClassificationResponse,
    Status,
>)
    ensures
        response matches Ok(r) && r@ == decode_sequence_classification(json_model(*json)),
{
    let mut logits: Vec<Double> = Vec::new();
    if let Some(rows) = extract_array(json, "logits") {
        let ghost all = logit_rows_of(json_model(*json));
        let mut i: usize = 0;
        while i < rows.len()
            invariant
                i <= rows.len(),
                all.len() == rows.len(),
                forall|j: int|
                    0 <= j < rows.len() ==> #[trigger] all[j] == scores_of(
                        elements_of(json_model(rows@[j])),
                    ),
                logits@ == all.take(i as int).flatten(),
            decreases rows.len() - i,
        {
            append_scores(&mut logits, &rows[i]);
            proof {
                assert(all.take(i + 1) == all.take(i as int).push(all[i as int]));
                all.take(i as int).lemma_flatten_push(all[i as int]);
            }
            i += 1;
        }
        assert(all.take(i as int) == all);
    }
    Ok(
        SequenceClassificationResponse {
            text: extract_string_value(json, "text"),
            logits,
            took: extract_took(json),
            shape: extract_shape(json),
        },
    )
}

fn metadata_value(value: &Value) -> (text: String)
    ensures
        text@ == metadata_text(json_model(*value)),
{
    match value.as_str() {
        Some(s) => s.to_owned(),
        None => value_to_string(value),
    }
}

/// Decodes the answer to a metadata request. An answer that is no object
/// is refused; of an object every member is kept, its value as text.
pub fn json_to_metadata_response(json: &Value) -> (response: Result<MetadataResponse, Status>)
    ensures
        match response {
            Ok(r) => r.wf() && decode_metadata(json_model(*json)) == Some(r@),
            Err(e) => decode_metadata(json_model(*json)) is None && e@ == Status::internal_model(
                NOT_AN_OBJECT@,
            ),
        },
{
    let entries = match value_entries(json) {
        Some(entries) => entries,
        None => {
            return Err(Status::internal(NOT_AN_OBJECT.to_owned()));
        },
    };
    let ghost members = json_model(*json).as_object()->0;
    let mut metadata: Vec<(String, String)> = Vec::new();
    let mut i: usize = 0;
    while i < entries.len()
        invariant
            i <= entries.len(),
            metadata@.len() == i,
            forall|j: int|
                0 <= j < i ==> (#[trigger] metadata@[j]).0@ == entries@[j].0@ && metadata@[j].1@
                    == metadata_text(json_model(*entries@[j].1)),
        decreases entries.len() - i,
    {
        let key = entries[i].0.clone();
        let text = metadata_value(entries[i].1);
        metadata.push((key, text));
        i += 1;
    }
    let response = MetadataResponse { metadata };
    proof {
        let pairs = response.metadata@;
        let expected = members.map_values(|value: Json| metadata_text(value));
        lemma_pairs_to_map(pairs);
        assert(distinct_keys(pairs)) by {
            assert forall|i: int, j: int| 0 <= i < j < pairs.len() implies #[trigger] pairs[i].0@
                != #[trigger] pairs[j].0@ by {
                assert(entries@[i].0@ != entries@[j].0@);
            }
        }
        let found = response@;
        assert forall|key: Seq<char>| #[trigger]
            found.contains_key(key) implies expected.contains_key(key) && expected[key]
            == found[key] by {
            let i = choose|i: int| 0 <= i < pairs.len() && #[trigger] pairs[i].0@ == key;
            assert(members.contains_key(entries@[i].0@));
            assert(is_last_of_key(pairs, i));
        }
        assert forall|key: Seq<char>| #[trigger]
            expected.contains_key(key) implies found.contains_key(key) by {
            let i = choose|i: int| 0 <= i < entries@.len() && #[trigger] entries@[i].0@ == key;
            assert(pairs[i].0@ == key);
        }
        assert(found =~= expected);
    }
    Ok(response)
}

/// An integer that fits in 32 bits is read as it is, and any other integer
/// as the 32-bit integer that differs from it by a multiple of 2^32.
pub proof fn lemma_wrap_to_i32(n: int)
    ensures
        i32::MIN <= n <= i32::MAX ==> wrap_to_i32(n) == n,
        (wrap_to_i32(n) - n) % 0x1_0000_0000 == 0,
{
    let shifted = n + 0x8000_0000;
    vstd::arithmetic::div_mod::lemma_fundamental_div_mod(shifted, 0x1_0000_0000);
    vstd::arithmetic::div_mod::lemma_mod_multiples_basic(-(shifted / 0x1_0000_0000), 0x1_0000_0000);
}

/// Every field of an embeddings response has its zero value where the
/// document lacks the field or holds another type under its key: no
/// embeddings, 0 milliseconds, the empty text, no shape. Each field is
/// decided by its own key alone.
pub proof fn lemma_embeddings_defaults(m: Json)
    ensures
        m.get("outputs"@) is None ==> decode_embeddings(m).embeddings == Seq::<
            Seq<Double>,
        >::empty(),
        (m.get("outputs"@) matches Some(v) && v.as_array() is None) ==> decode_embeddings(
            m,
        ).embeddings == Seq::<Seq<Double>>::empty(),
        m.get("took"@) is None ==> decode_embeddings(m).took == 0,
        (m.get("took"@) matches Some(v) && v.as_i64() is None) ==> decode_embeddings(m).took == 0,
        m.get("text"@) is None ==> decode_embeddings(m).text == Seq::<char>::empty(),
        (m.get("text"@) matches Some(v) && v.as_str() is None) ==> decode_embeddings(m).text
            == Seq::<char>::empty(),
        m.get("shape"@) is None ==> decode_embeddings(m).shape is None,
        (m.get("shape"@) matches Some(v) && v.as_array() is None) ==> decode_embeddings(
            m,
        ).shape is None,
{
}

/// Every field of a question-answering response that is read from the
/// document has its zero value where the document lacks the field or holds
/// another type under its key: the empty answer, position 0, 0 milliseconds.
pub proof fn lemma_question_answer_defaults(m: Json, question: Seq<char>, context: Seq<char>)
    ensures
        m.get("answer"@) is None ==> decode_question_answer(m, question, context).answer == Seq::<
            char,
        >::empty(),
        (m.get("answer"@) matches Some(v) && v.as_str() is None) ==> decode_question_answer(
            m,
            question,
            context,
        ).answer == Seq::<char>::empty(),
        m.get("start_idx"@) is None ==> decode_question_answer(m, question, context).start_idx
            == 0,
        (m.get("start_idx"@) matches Some(v) && v.as_u64() is None) ==> decode_question_answer(
            m,
            question,
            context,
        ).start_idx == 0,
        m.get("end_idx"@) is None ==> decode_question_answer(m, question, context).end_idx == 0,
        (m.get("end_idx"@) matches Some(v) && v.as_u64() is None) ==> decode_question_answer(
            m,
            question,
            context,
        ).end_idx == 0,
        m.get("took"@) is None ==> decode_question_answer(m, question, context).took == 0,
        (m.get("took"@) matches Some(v) && v.as_i64() is None) ==> decode_question_answer(
            m,
            question,
            context,
        ).took == 0,
{
}

/// The question and the context of a question-answering response are the
/// ones that were asked, whatever the document holds.
pub proof fn lemma_question_answer_echo(m: Json, question: Seq<char>, context: Seq<char>)
    ensures
        decode_question_answer(m, question, context).question == question,
        decode_question_answer(m, question, context).context == context,
{
}

/// Every field of a sequence-classification response has its zero value
/// where the document lacks the field or holds another type under its key:
/// no logits, the empty text, 0 milliseconds, no shape.
pub proof fn lemma_sequence_classification_defaults(m: Json)
    ensures
        m.get("logits"@) is None ==> decode_sequence_classification(m).logits == Seq::<
            Double,
        >::empty(),
        (m.get("logits"@) matches Some(v) && v.as_array() is None)
            ==> decode_sequence_classification(m).logits == Seq::<Double>::empty(),
        m.get("text"@) is None ==> decode_sequence_classification(m).text == Seq::<char>::empty(),
        (m.get("text"@) matches Some(v) && v.as_str() is None) ==> decode_sequence_classification(
            m,
        ).text == Seq::<char>::empty(),
        m.get("took"@) is None ==> decode_sequence_classification(m).took == 0,
        (m.get("took"@) matches Some(v) && v.as_i64() is None) ==> decode_sequence_classification(
            m,
        ).took == 0,
        m.get("shape"@) is None ==> decode_sequence_classification(m).shape is None,
        (m.get("shape"@) matches Some(v) && v.as_array() is None)
            ==> decode_sequence_classification(m).shape is None,
{
}

/// Every field of a token-classification response has its zero value where
/// the document lacks the field or holds another type under its key: no
/// entities, the empty text, 0 milliseconds, no shape.
pub proof fn lemma_token_classification_defaults(m: Json)
    ensures
        m.get("entities"@) is None ==> decode_token_classification(m).entities == Seq::<
            EntityModel,
        >::empty(),
        (m.get("entities"@) matches Some(v) && v.as_array() is None)
            ==> decode_token_classification(m).entities == Seq::<EntityModel>::empty(),
        m.get("text"@) is None ==> decode_token_classification(m).text == Seq::<char>::empty(),
        (m.get("text"@) matches Some(v) && v.as_str() is None) ==> decode_token_classification(
            m,
        ).text == Seq::<char>::empty(),
        m.get("took"@) is None ==> decode_token_classification(m).took == 0,
        (m.get("took"@) matches Some(v) && v.as_i64() is None) ==> decode_token_classification(
            m,
        ).took == 0,
        m.get("shape"@) is None ==> decode_token_classification(m).shape is None,
        (m.get("shape"@) matches Some(v) && v.as_array() is None) ==> decode_token_classification(
            m,
        ).shape is None,
{
}

/// Every field of an entity has its zero value where the element lacks the
/// field or holds another type under its key: the empty string for `id`,
/// `label` and `text`, zero for the score, 0 for both offsets.
pub proof fn lemma_entity_defaults(entity: Json)
    ensures
        entity.get("id"@) is None ==> entity_of(entity).id == Seq::<char>::empty(),
        (entity.get("id"@) matches Some(v) && v.as_str() is None) ==> entity_of(entity).id
            == Seq::<char>::empty(),
        entity.get("label"@) is None ==> entity_of(entity).label == Seq::<char>::empty(),
        (entity.get("label"@) matches Some(v) && v.as_str() is None) ==> entity_of(entity).label
            == Seq::<char>::empty(),
        entity.get("text"@) is None ==> entity_of(entity).text == Seq::<char>::empty(),
        (entity.get("text"@) matches Some(v) && v.as_str() is None) ==> entity_of(entity).text
            == Seq::<char>::empty(),
        entity.get("score"@) is None ==> entity_of(entity).score == Double::zero(),
        (entity.get("score"@) matches Some(v) && v.as_double() is None) ==> entity_of(
            entity,
        ).score == Double::zero(),
        entity.get("offsets"@) is None ==> entity_of(entity).start_offset == 0 && entity_of(
            entity,
        ).end_offset == 0,
        (entity.get("offsets"@) matches Some(v) && v.as_array() is None) ==> entity_of(
            entity,
        ).start_offset == 0 && entity_of(entity).end_offset == 0,
{
}

/// The two ends of an entity's span are read from the array under
/// `offsets` one by one: the start from its first element, the end from
/// its second. Each end is the element's value where the element is an
/// integer of 32 bits (`a` for the start, `b` for the end), and 0 where the
/// array is too short to hold it or the element is no integer, whatever
/// holds of the other end.
pub proof fn lemma_entity_offsets(entity: Json, pair: Seq<Json>, a: i32, b: i32)
    requires
        entity.get("offsets"@) == Some(Json::Array(pair)),
    ensures
        (pair.len() >= 1 && pair[0].as_i64() == Some(a as i64)) ==> entity_of(entity).start_offset
            == a,
        (pair.len() >= 2 && pair[1].as_i64() == Some(b as i64)) ==> entity_of(entity).end_offset
            == b,
        (pair.len() < 1 || pair[0].as_i64() is None) ==> entity_of(entity).start_offset == 0,
        (pair.len() < 2 || pair[1].as_i64() is None) ==> entity_of(entity).end_offset == 0,
{
}

/// The element in row `i` and column `j` of a matrix of scores.
pub open spec fn matrix_entry(rows: Seq<Json>, i: int, j: int) -> Double {
    double_or_zero(elements_of(rows[i])[j])
}

/// Whether every element of `rows` is an array of `width` elements.
pub open spec fn is_matrix(rows: Seq<Json>, width: nat) -> bool {
    forall|i: int| 0 <= i < rows.len() ==> (#[trigger] rows[i]).as_array() is Some && elements_of(
        rows[i],
    ).len() == width
}

proof fn lemma_flatten_uniform<A>(rows: Seq<Seq<A>>, width: nat)
    requires
        forall|i: int| 0 <= i < rows.len() ==> (#[trigger] rows[i]).len() == width,
    ensures
        rows.flatten().len() == rows.len() * width,
        forall|i: int, j: int|
            0 <= i < rows.len() && 0 <= j < width ==> rows.flatten()[i * width + j]
                == #[trigger] rows[i][j],
    decreases rows.len(),
{
    if rows.len() > 0 {
        let rest = rows.drop_last();
        let last = rows.last();
        lemma_flatten_uniform(rest, width);
        assert(rows == rest.push(last));
        rest.lemma_flatten_push(last);
        assert(rest.len() * width + width == rows.len() * width) by (nonlinear_arith)
            requires
                rest.len() + 1 == rows.len(),
        ;
        assert forall|i: int, j: int| 0 <= i < rows.len() && 0 <= j < width implies rows.flatten()[i
            * width + j] == #[trigger] rows[i][j] by {
            if i < rest.len() {
                assert(i * width + j < rest.len() * width) by (nonlinear_arith)
                    requires
                        0 <= i < rest.len(),
                        0 <= j < width,
                ;
                assert(0 <= i * width + j) by (nonlinear_arith)
                    requires
                        0 <= i,
                        0 <= j,
                        0 <= width,
                ;
                assert(rest[i][j] == rows[i][j]);
            } else {
                assert(i * width == rest.len() * width) by (nonlinear_arith)
                    requires
                        i == rest.len(),
                ;
            }
        }
    } else {
        assert(rows.len() * width == 0) by (nonlinear_arith)
            requires
                rows.len() == 0,
        ;
    }
}

/// The number of elements in the rows before row `i`.
pub open spec fn row_start(rows: Seq<Json>, i: int) -> int
    decreases i,
{
    if i <= 0 {
        0
    } else {
        row_start(rows, i - 1) + elements_of(rows[i - 1]).len()
    }
}

proof fn lemma_flatten_prefix<A>(rows: Seq<Seq<A>>, i: int, j: int)
    requires
        0 <= i < rows.len(),
        0 <= j < rows[i].len(),
    ensures
        rows.take(i).flatten().len() + j < rows.flatten().len(),
        rows.flatten()[rows.take(i).flatten().len() + j] == rows[i][j],
{
    let before = rows.take(i);
    let after = rows.skip(i + 1);
    assert(rows == before.push(rows[i]) + after);
    vstd::seq_lib::lemma_flatten_concat(before.push(rows[i]), after);
    before.lemma_flatten_push(rows[i]);
}

proof fn lemma_row_start_grows(rows: Seq<Json>, i: int, k: int)
    requires
        0 <= i <= k,
    ensures
        row_start(rows, i) <= row_start(rows, k),
    decreases k,
{
    if i < k {
        lemma_row_start_grows(rows, i, k - 1);
    }
}

proof fn lemma_row_start(m: Json, rows: Seq<Json>, i: int)
    requires
        m.get("logits"@) == Some(Json::Array(rows)),
        0 <= i <= rows.len(),
    ensures
        row_start(rows, i) == logit_rows_of(m).take(i).flatten().len(),
    decreases i,
{
    let scores = logit_rows_of(m);
    if i > 0 {
        lemma_row_start(m, rows, i - 1);
        assert(scores.take(i) == scores.take(i - 1).push(scores[i - 1]));
        scores.take(i - 1).lemma_flatten_push(scores[i - 1]);
    }
}

/// The logits are the rows one after the other, whatever the lengths of
/// the rows: there are as many logits as the rows have elements, the
/// element in row `i` and column `j` is the logit at position `j` after all
/// elements of the rows before row `i`, and the places of a row lie one
/// after the other within the logits.
pub proof fn lemma_logits_in_row_order(m: Json, rows: Seq<Json>)
    requires
        m.get("logits"@) == Some(Json::Array(rows)),
    ensures
        decode_sequence_classification(m).logits.len() == row_start(rows, rows.len() as int),
        forall|i: int, j: int|
            0 <= i < rows.len() && 0 <= j < elements_of(rows[i]).len() ==> (#[trigger] matrix_entry(
                rows,
                i,
                j,
            )) == decode_sequence_classification(m).logits[row_start(rows, i) + j],
        forall|i: int|
            0 <= i < rows.len() ==> 0 <= #[trigger] row_start(rows, i) && row_start(rows, i)
                + elements_of(rows[i]).len() <= row_start(rows, rows.len() as int),
{
    let scores = logit_rows_of(m);
    lemma_row_start(m, rows, rows.len() as int);
    assert(scores.take(rows.len() as int) == scores);
    let logits = decode_sequence_classification(m).logits;
    assert(logits == scores.flatten());
    assert forall|i: int, j: int|
        0 <= i < rows.len() && 0 <= j < elements_of(rows[i]).len() implies (#[trigger] matrix_entry(
        rows,
        i,
        j,
    )) == logits[row_start(rows, i) + j] && 0 <= row_start(rows, i) + j < logits.len() by {
        lemma_row_start(m, rows, i);
        lemma_flatten_prefix(scores, i, j);
        assert(scores[i][j] == matrix_entry(rows, i, j));
    }
    assert forall|i: int| 0 <= i < rows.len() implies 0 <= #[trigger] row_start(rows, i)
        && row_start(rows, i) + elements_of(rows[i]).len() <= row_start(
        rows,
        rows.len() as int,
    ) by {
        lemma_row_start_grows(rows, 0, i);
        lemma_row_start_grows(rows, i + 1, rows.len() as int);
    }
}

/// The logits of a matrix are its rows one after the other: where `logits`
/// holds `rows` with `width` elements each, there are as many logits as the
/// matrix has elements, and the element in row `i` and column `j` is the
/// logit at position `i * width + j`.
pub proof fn lemma_logits_row_major(m: Json, rows: Seq<Json>, width: nat)
    requires
        m.get("logits"@) == Some(Json::Array(rows)),
        is_matrix(rows, width),
    ensures
        decode_sequence_classification(m).logits.len() == rows.len() * width,
        forall|i: int, j: int|
            0 <= i < rows.len() && 0 <= j < width ==> decode_sequence_classification(m).logits[i
                * width + j] == #[trigger] matrix_entry(rows, i, j),
{
    let scores = logit_rows_of(m);
    assert(scores.len() == rows.len());
    assert forall|i: int| 0 <= i < scores.len() implies (#[trigger] scores[i]).len() == width by {
        assert(rows[i].as_array() is Some);
    }
    lemma_flatten_uniform(scores, width);
    assert forall|i: int, j: int| 0 <= i < rows.len() && 0 <= j < width implies scores.flatten()[i
        * width + j] == #[trigger] matrix_entry(rows, i, j) by {
        assert(rows[i].as_array() is Some);
        assert(scores[i][j] == matrix_entry(rows, i, j));
    }
}

/// A metadata answer is refused exactly when it is no object.
pub proof fn lemma_metadata_refused_unless_object(m: Json)
    ensures
        decode_metadata(m) is None <==> !(m is Object),
{
}

/// The metadata of an object has the object's keys, and under each key the
/// member's value as text: a string as it is, and any other value, an
/// array too, as its compact JSON text, unchanged.
pub proof fn lemma_metadata_values(members: Map<Seq<char>, Json>, key: Seq<char>)
    requires
        members.contains_key(key),
    ensures
        decode_metadata(Json::Object(members)) is Some,
        decode_metadata(Json::Object(members))->0.dom() == members.dom(),
        decode_metadata(Json::Object(members))->0[key] == metadata_text(members[key]),
        members[key] is String ==> metadata_text(members[key]) == members[key]->String_0,
        !(members[key] is String) ==> metadata_text(members[key]) == json_text(members[key]),
{
}

} // verus!
