//! Requests and responses of the inference service, each with the
//! mathematical model that the contracts of this crate speak of.
use vstd::prelude::*;

verus! {

/// A number in double precision, held by its bit pattern. The transport
/// narrows it to single precision when it encodes a message.
#[derive(Clone, Copy, Debug, PartialEq, Eq, Structural)]
pub struct Double {
    pub bits: u64,
}

impl Double {
    /// Positive zero.
    pub open spec fn zero() -> Double {
        Double { bits: 0 }
    }
}

/// A request without content.
#[derive(Clone, Copy, Debug, PartialEq, Eq, Structural)]
pub struct Empty {}

/// A request that carries one text.
#[derive(Clone, Debug, PartialEq, Eq)]
pub struct TextRequest {
    pub text: String,
}

/// A question and the context in which to answer it.
#[derive(Clone, Debug, PartialEq, Eq)]
pub struct QuestionAnswerRequest {
    pub question: String,
    pub context: String,
}

/// The outcome of a health check.
#[derive(Clone, Copy, Debug, PartialEq, Eq, Structural)]
pub struct HealthcheckResponse {
    pub success: bool,
}

/// The two dimensions of a tensor.
#[derive(Clone, Copy, Debug, PartialEq, Eq, Structural)]
pub struct Shape {
    pub dim1: i32,
    pub dim2: i32,
}

/// One embedding vector.
#[derive(Clone, Debug, PartialEq, Eq)]
pub struct Embedding {
    pub values: Vec<Double>,
}

impl View for Embedding {
    type V = Seq<Double>;

    open spec fn view(&self) -> Seq<Double> {
        self.values@
    }
}

/// The models of a sequence of embeddings, in order.
pub open spec fn embedding_views(embeddings: Seq<Embedding>) -> Seq<Seq<Double>> {
    embeddings.map_values(|e: Embedding| e@)
}

/// What an embeddings response holds.
pub struct EmbeddingsModel {
    pub embeddings: Seq<Seq<Double>>,
    pub took: i32,
    pub text: Seq<char>,
    pub shape: Option<Shape>,
}

/// Embeddings of a text.
#[derive(Clone, Debug, PartialEq, Eq)]
pub struct EmbeddingsResponse {
    pub embeddings: Vec<Embedding>,
    pub took: i32,
    pub text: String,
    pub shape: Option<Shape>,
}

impl View for EmbeddingsResponse {
    type V = EmbeddingsModel;

    open spec fn view(&self) -> EmbeddingsModel {
        EmbeddingsModel {
            embeddings: embedding_views(self.embeddings@),
            took: self.took,
            text: self.text@,
            shape: self.shape,
        }
    }
}

/// Sentence embeddings of a text.
#[derive(Clone, Debug, PartialEq, Eq)]
pub struct SentenceTransformersResponse {
    pub embeddings: Vec<Embedding>,
    pub took: i32,
    pub text: String,
    pub shape: Option<Shape>,
}

impl View for SentenceTransformersResponse {
    type V = EmbeddingsModel;

    open spec fn view(&self) -> EmbeddingsModel {
        EmbeddingsModel {
            embeddings: embedding_views(self.embeddings@),
            took: self.took,
            text: self.text@,
            shape: self.shape,
        }
    }
}

/// What a sequence-classification response holds.
pub struct SequenceClassificationModel {
    pub text: Seq<char>,
    pub logits: Seq<Double>,
    pub took: i32,
    pub shape: Option<Shape>,
}

/// The scores of a text, one row of the score matrix after the other.
#[derive(Clone, Debug, PartialEq, Eq)]
pub struct SequenceClassificationResponse {
    pub text: String,
    pub logits: Vec<Double>,
    pub took: i32,
    pub shape: Option<Shape>,
}

impl View for SequenceClassificationResponse {
    type V = SequenceClassificationModel;

    open spec fn view(&self) -> SequenceClassificationModel {
        SequenceClassificationModel {
            text: self.text@,
            logits: self.logits@,
            took: self.took,
            shape: self.shape,
        }
    }
}

/// What an entity holds.
pub struct EntityModel {
    pub id: Seq<char>,
    pub label: Seq<char>,
    pub text: Seq<char>,
    pub score: Double,
    pub start_offset: i32,
    pub end_offset: i32,
}

/// A labelled span of the classified text.
#[derive(Clone, Debug, PartialEq, Eq)]
pub struct Entity {
    pub id: String,
    pub label: String,
    pub text: String,
    pub score: Double,
    pub start_offset: i32,
    pub end_offset: i32,
}

impl View for Entity {
    type V = EntityModel;

    open spec fn view(&self) -> EntityModel {
        EntityModel {
            id: self.id@,
            label: self.label@,
            text: self.text@,
            score: self.score,
            start_offset: self.start_offset,
            end_offset: self.end_offset,
        }
    }
}

/// The models of a sequence of entities, in order.
pub open spec fn entity_views(entities: Seq<Entity>) -> Seq<EntityModel> {
    entities.map_values(|e: Entity| e@)
}

/// What a token-classification response holds.
pub struct TokenClassificationModel {
    pub took: i32,
    pub text: Seq<char>,
    pub entities: Seq<EntityModel>,
    pub shape: Option<Shape>,
}

/// The entities found in a text.
#[derive(Clone, Debug, PartialEq, Eq)]
pub struct TokenClassificationResponse {
    pub took: i32,
    pub text: String,
    pub entities: Vec<Entity>,
    pub shape: Option<Shape>,
}

impl View for TokenClassificationResponse {
    type V = TokenClassificationModel;

    open spec fn view(&self) -> TokenClassificationModel {
        TokenClassificationModel {
            took: self.took,
            text: self.text@,
            entities: entity_views(self.entities@),
            shape: self.shape,
        }
    }
}

/// What a question-answering response holds.
pub struct QuestionAnswerModel {
    pub answer: Seq<char>,
    pub start_idx: i32,
    pub end_idx: i32,
    pub question: Seq<char>,
    pub context: Seq<char>,
    pub took: i32,
}

/// The answer to a question, with the question and context it was asked with.
#[derive(Clone, Debug, PartialEq, Eq)]
pub struct QuestionAnswerResponse {
    pub answer: String,
    pub start_idx: i32,
    pub end_idx: i32,
    pub question: String,
    pub context: String,
    pub took: i32,
}

impl View for QuestionAnswerResponse {
    type V = QuestionAnswerModel;

    open spec fn view(&self) -> QuestionAnswerModel {
        QuestionAnswerModel {
            answer: self.answer@,
            start_idx: self.start_idx,
            end_idx: self.end_idx,
            question: self.question@,
            context: self.context@,
            took: self.took,
        }
    }
}

/// The map that a list of key-value pairs denotes. Where a key comes more
/// than once, its last pair counts.
pub open spec fn pairs_to_map(pairs: Seq<(String, String)>) -> Map<Seq<char>, Seq<char>>
    decreases pairs.len(),
{
    if pairs.len() == 0 {
        Map::empty()
    } else {
        pairs_to_map(pairs.drop_last()).insert(pairs.last().0@, pairs.last().1@)
    }
}

/// Whether no key comes twice in a list of key-value pairs.
pub open spec fn distinct_keys(pairs: Seq<(String, String)>) -> bool {
    forall|i: int, j: int|
        0 <= i < j < pairs.len() ==> #[trigger] pairs[i].0@ != #[trigger] pairs[j].0@
}

/// Whether the pair at `i` is the last one with its key.
pub open spec fn is_last_of_key(pairs: Seq<(String, String)>, i: int) -> bool {
    &&& 0 <= i < pairs.len()
    &&& forall|j: int| i < j < pairs.len() ==> (#[trigger] pairs[j]).0@ != pairs[i].0@
}

/// The keys of `pairs_to_map(pairs)` are the keys of the pairs, and the
/// last pair of every key is found under that key.
pub proof fn lemma_pairs_to_map(pairs: Seq<(String, String)>)
    ensures
        forall|key: Seq<char>| #[trigger]
            pairs_to_map(pairs).contains_key(key) <==> exists|i: int|
                0 <= i < pairs.len() && #[trigger] pairs[i].0@ == key,
        forall|i: int| #[trigger]
            is_last_of_key(pairs, i) ==> pairs_to_map(pairs)[pairs[i].0@] == pairs[i].1@,
    decreases pairs.len(),
{
    if pairs.len() > 0 {
        let rest = pairs.drop_last();
        let last = pairs.len() - 1;
        lemma_pairs_to_map(rest);
        assert forall|key: Seq<char>| #[trigger]
            pairs_to_map(pairs).contains_key(key) implies exists|i: int|
            0 <= i < pairs.len() && #[trigger] pairs[i].0@ == key by {
            if key == pairs[last].0@ {
            } else {
                assert(pairs_to_map(rest).contains_key(key));
                let i = choose|i: int| 0 <= i < rest.len() && #[trigger] rest[i].0@ == key;
                assert(pairs[i].0@ == key);
            }
        }
        let map = pairs_to_map(pairs);
        assert forall|key: Seq<char>|
            (exists|i: int| 0 <= i < pairs.len() && #[trigger] pairs[i].0@ == key)
            implies #[trigger] map.contains_key(key) by {
            let i = choose|i: int| 0 <= i < pairs.len() && #[trigger] pairs[i].0@ == key;
            if i < last {
                assert(rest[i].0@ == key);
                assert(pairs_to_map(rest).contains_key(key));
            }
        }
        assert forall|i: int| #[trigger] is_last_of_key(pairs, i) implies pairs_to_map(
            pairs,
        )[pairs[i].0@] == pairs[i].1@ by {
            if i < last {
                assert(pairs[last].0@ != pairs[i].0@);
                assert(rest[i] == pairs[i]);
                assert(is_last_of_key(rest, i)) by {
                    assert forall|j: int| i < j < rest.len() implies (#[trigger] rest[j]).0@
                        != rest[i].0@ by {
                        assert(pairs[j].0@ != pairs[i].0@);
                    }
                }
            }
        }
    }
}

/// What the backend says of itself and of its model: text under unique
/// keys. The pairs are kept as a list in which no key comes twice; their
/// order means nothing.
#[derive(Clone, Debug, PartialEq, Eq)]
pub struct MetadataResponse {
    pub metadata: Vec<(String, String)>,
}

impl View for MetadataResponse {
    type V = Map<Seq<char>, Seq<char>>;

    open spec fn view(&self) -> Map<Seq<char>, Seq<char>> {
        pairs_to_map(self.metadata@)
    }
}

impl MetadataResponse {
    /// The invariant of the type: no key comes twice.
    pub open spec fn wf(&self) -> bool {
        distinct_keys(self.metadata@)
    }

    /// The text under `key`, where there is one.
    pub fn get(&self, key: &str) -> (value: Option<&String>)
        ensures
            match value {
                Some(text) => self@.contains_key(key@) && self@[key@] == text@,
                None => !self@.contains_key(key@),
            },
    {
        proof {
            lemma_pairs_to_map(self.metadata@);
        }
        let wanted = key.to_owned();
        let mut i: usize = self.metadata.len();
        while i > 0
            invariant
                i <= self.metadata.len(),
                wanted@ == key@,
                forall|j: int|
                    i <= j < self.metadata.len() ==> (#[trigger] self.metadata@[j]).0@ != key@,
            decreases i,
        {
            i -= 1;
            if self.metadata[i].0 == wanted {
                proof {
                    lemma_pairs_to_map(self.metadata@);
                    assert(is_last_of_key(self.metadata@, i as int));
                }
                return Some(&self.metadata[i].1);
            }
        }
        None
    }
}

} // verus!
