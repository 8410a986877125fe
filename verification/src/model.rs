//! The dataset schema: titled documents holding paragraph groups, each with a
//! context passage and its question/answer records.
//!
//! Every type has a mathematical model (`*Model`) reached through `deep_view`,
//! over which all contracts are stated.

use vstd::prelude::*;

verus! {

/// A span of answer text together with its character offset into the
/// original-language context passage. The offset is an opaque position:
/// it is carried through translation unchanged, never recomputed.
#[derive(Debug, PartialEq)]
pub struct Answer {
    pub text: String,
    pub answer_start: u32,
}

/// Model of an [`Answer`].
#[verifier::ext_equal]
pub struct AnswerModel {
    pub text: Seq<char>,
    pub answer_start: u32,
}

impl DeepView for Answer {
    type V = AnswerModel;

    open spec fn deep_view(&self) -> AnswerModel {
        AnswerModel { text: self.text.deep_view(), answer_start: self.answer_start }
    }
}

/// One question record: the question text, an opaque identifier, an
/// impossibility flag, and its answer lists. A well-formed record carries
/// `plausible_answers` when `is_impossible` holds and `answers` otherwise.
#[derive(Debug, PartialEq)]
pub struct QARecord {
    pub question: String,
    pub id: String,
    pub answers: Option<Vec<Answer>>,
    pub plausible_answers: Option<Vec<Answer>>,
    pub is_impossible: bool,
}

/// Model of a [`QARecord`].
#[verifier::ext_equal]
pub struct QARecordModel {
    pub question: Seq<char>,
    pub id: Seq<char>,
    pub answers: Option<Seq<AnswerModel>>,
    pub plausible_answers: Option<Seq<AnswerModel>>,
    pub is_impossible: bool,
}

impl DeepView for QARecord {
    type V = QARecordModel;

    open spec fn deep_view(&self) -> QARecordModel {
        QARecordModel {
            question: self.question.deep_view(),
            id: self.id.deep_view(),
            answers: self.answers.deep_view(),
            plausible_answers: self.plausible_answers.deep_view(),
            is_impossible: self.is_impossible,
        }
    }
}

/// One context passage with the question records that refer to it.
#[derive(Debug, PartialEq)]
pub struct ParagraphGroup {
    pub context: String,
    pub qas: Vec<QARecord>,
}

/// Model of a [`ParagraphGroup`].
#[verifier::ext_equal]
pub struct ParagraphGroupModel {
    pub context: Seq<char>,
    pub qas: Seq<QARecordModel>,
}

impl DeepView for ParagraphGroup {
    type V = ParagraphGroupModel;

    open spec fn deep_view(&self) -> ParagraphGroupModel {
        ParagraphGroupModel {
            context: self.context.deep_view(),
            qas: self.qas.deep_view(),
        }
    }
}

/// One titled unit of the dataset.
#[derive(Debug, PartialEq)]
pub struct Document {
    pub title: String,
    pub paragraphs: Vec<ParagraphGroup>,
}

/// Model of a [`Document`].
#[verifier::ext_equal]
pub struct DocumentModel {
    pub title: Seq<char>,
    pub paragraphs: Seq<ParagraphGroupModel>,
}

impl DeepView for Document {
    type V = DocumentModel;

    open spec fn deep_view(&self) -> DocumentModel {
        DocumentModel {
            title: self.title.deep_view(),
            paragraphs: self.paragraphs.deep_view(),
        }
    }
}

/// The whole versioned dataset.
#[derive(Debug, PartialEq)]
pub struct Dataset {
    pub version: String,
    pub data: Vec<Document>,
}

/// Model of a [`Dataset`].
#[verifier::ext_equal]
pub struct DatasetModel {
    pub version: Seq<char>,
    pub data: Seq<DocumentModel>,
}

impl DeepView for Dataset {
    type V = DatasetModel;

    open spec fn deep_view(&self) -> DatasetModel {
        DatasetModel { version: self.version.deep_view(), data: self.data.deep_view() }
    }
}

/// The answer list selected by the impossibility flag: `plausible_answers`
/// when the question is impossible, `answers` otherwise.
pub open spec fn qa_active(qa: QARecordModel) -> Option<Seq<AnswerModel>> {
    if qa.is_impossible {
        qa.plausible_answers
    } else {
        qa.answers
    }
}

/// The answer list the impossibility flag does not select.
pub open spec fn qa_inactive(qa: QARecordModel) -> Option<Seq<AnswerModel>> {
    if qa.is_impossible {
        qa.answers
    } else {
        qa.plausible_answers
    }
}

/// The active answer list, or empty when it is absent.
pub open spec fn active_answers(qa: QARecordModel) -> Seq<AnswerModel> {
    match qa_active(qa) {
        Some(ans) => ans,
        None => Seq::empty(),
    }
}

/// A record is well formed when the answer list its flag selects is present.
pub open spec fn qa_wf(qa: QARecordModel) -> bool {
    qa_active(qa) is Some
}

/// A record is exclusive when exactly the selected answer list is present.
pub open spec fn qa_exclusive(qa: QARecordModel) -> bool {
    qa_active(qa) is Some && qa_inactive(qa) is None
}

pub open spec fn para_wf(p: ParagraphGroupModel) -> bool {
    forall|i: int| 0 <= i < p.qas.len() ==> qa_wf(#[trigger] p.qas[i])
}

pub open spec fn doc_wf(d: DocumentModel) -> bool {
    forall|i: int| 0 <= i < d.paragraphs.len() ==> para_wf(#[trigger] d.paragraphs[i])
}

pub open spec fn dataset_wf(d: DatasetModel) -> bool {
    forall|i: int| 0 <= i < d.data.len() ==> doc_wf(#[trigger] d.data[i])
}

/// The format tag written on every produced dataset.
pub open spec fn output_version() -> Seq<char> {
    "v2.0"@
}

/// Why a translation run failed. Every error is terminal: the run produces
/// either a fully translated dataset or nothing.
#[derive(Debug, Clone, Copy, PartialEq, Eq, Structural)]
pub enum TransformError {
    /// A question record's flag selects an answer list that is absent.
    MissingAnswers,
    /// The translation backend returned a batch whose length differs from
    /// the batch submitted to it.
    BatchLengthMismatch,
    /// The translation backend reported a failure.
    GatewayFailure,
}

} // verus!
