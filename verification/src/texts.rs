//! The ordered batch of translatable texts of a dataset.
//!
//! Texts are gathered in a single deterministic order: for each document its
//! title, then for each of its paragraph groups the context followed by, for
//! each question record, the question and then the text of every answer in
//! the active answer list.

use vstd::prelude::*;

use crate::model::{
    active_answers, dataset_wf, doc_wf, para_wf, qa_wf, Answer, AnswerModel, Dataset,
    DatasetModel, Document, DocumentModel, ParagraphGroup, ParagraphGroupModel, QARecord,
    QARecordModel, TransformError,
};

verus! {

/// The texts of one answer list, in order.
pub open spec fn answer_texts(ans: Seq<AnswerModel>) -> Seq<Seq<char>> {
    Seq::new(ans.len(), |i: int| ans[i].text)
}

/// The texts of one question record: the question, then the active answers.
pub open spec fn qa_texts(qa: QARecordModel) -> Seq<Seq<char>> {
    seq![qa.question] + answer_texts(active_answers(qa))
}

/// The texts of a sequence of question records, concatenated in order.
pub open spec fn qas_texts(qas: Seq<QARecordModel>) -> Seq<Seq<char>>
    decreases qas.len(),
{
    if qas.len() == 0 {
        Seq::empty()
    } else {
        qa_texts(qas[0]) + qas_texts(qas.skip(1))
    }
}

/// The texts of one paragraph group: the context, then its records' texts.
pub open spec fn para_texts(p: ParagraphGroupModel) -> Seq<Seq<char>> {
    seq![p.context] + qas_texts(p.qas)
}

/// The texts of a sequence of paragraph groups, concatenated in order.
pub open spec fn paras_texts(ps: Seq<ParagraphGroupModel>) -> Seq<Seq<char>>
    decreases ps.len(),
{
    if ps.len() == 0 {
        Seq::empty()
    } else {
        para_texts(ps[0]) + paras_texts(ps.skip(1))
    }
}

/// The texts of one document: the title, then its paragraph groups' texts.
pub open spec fn doc_texts(d: DocumentModel) -> Seq<Seq<char>> {
    seq![d.title] + paras_texts(d.paragraphs)
}

/// The texts of a sequence of documents, concatenated in order.
pub open spec fn docs_texts(ds: Seq<DocumentModel>) -> Seq<Seq<char>>
    decreases ds.len(),
{
    if ds.len() == 0 {
        Seq::empty()
    } else {
        doc_texts(ds[0]) + docs_texts(ds.skip(1))
    }
}

/// Every translatable text of a dataset, as one ordered batch.
pub open spec fn dataset_texts(d: DatasetModel) -> Seq<Seq<char>> {
    docs_texts(d.data)
}

/// Where a record's texts start inside the texts of its record sequence.
pub open spec fn qas_offset(qas: Seq<QARecordModel>, i: int) -> int {
    qas_texts(qas.take(i)).len() as int
}

/// Where a group's texts start inside the texts of its group sequence.
pub open spec fn paras_offset(ps: Seq<ParagraphGroupModel>, i: int) -> int {
    paras_texts(ps.take(i)).len() as int
}

/// Where a document's texts start inside the texts of its document sequence.
pub open spec fn docs_offset(ds: Seq<DocumentModel>, i: int) -> int {
    docs_texts(ds.take(i)).len() as int
}

/// Extending a prefix of records by one appends that record's texts.
pub proof fn lemma_qas_texts_snoc(qas: Seq<QARecordModel>, i: int)
    requires
        0 <= i < qas.len(),
    ensures
        qas_texts(qas.take(i + 1)) == qas_texts(qas.take(i)) + qa_texts(qas[i]),
    decreases i,
{
    if i == 0 {
        assert(qas.take(1).skip(1) =~= Seq::<QARecordModel>::empty());
        assert(qas.take(0) =~= Seq::<QARecordModel>::empty());
        assert(qas_texts(qas.take(1)) =~= qas_texts(qas.take(0)) + qa_texts(qas[0]));
    } else {
        lemma_qas_texts_snoc(qas.skip(1), i - 1);
        assert(qas.take(i + 1).skip(1) =~= qas.skip(1).take(i));
        assert(qas.take(i).skip(1) =~= qas.skip(1).take(i - 1));
        assert(qas_texts(qas.take(i + 1)) =~= qas_texts(qas.take(i)) + qa_texts(qas[i]));
    }
}

/// The texts of a prefix of records are a prefix of the records' texts.
pub proof fn lemma_qas_texts_prefix(qas: Seq<QARecordModel>, i: int)
    requires
        0 <= i <= qas.len(),
    ensures
        0 <= qas_offset(qas, i) <= qas_texts(qas).len(),
        qas_texts(qas.take(i)) == qas_texts(qas).take(qas_offset(qas, i)),
    decreases qas.len() - i,
{
    if i == qas.len() {
        assert(qas.take(i) =~= qas);
        assert(qas_texts(qas.take(i)) =~= qas_texts(qas).take(qas_offset(qas, i)));
    } else {
        lemma_qas_texts_prefix(qas, i + 1);
        lemma_qas_texts_snoc(qas, i);
        assert(qas_texts(qas.take(i)) =~= qas_texts(qas).take(qas_offset(qas, i)));
    }
}

/// A record's texts sit at its offset inside the records' texts.
pub proof fn lemma_qas_texts_index(qas: Seq<QARecordModel>, i: int, k: int)
    requires
        0 <= i < qas.len(),
        0 <= k < qa_texts(qas[i]).len(),
    ensures
        qas_offset(qas, i) + qa_texts(qas[i]).len() <= qas_texts(qas).len(),
        qas_texts(qas)[qas_offset(qas, i) + k] == qa_texts(qas[i])[k],
{
    lemma_qas_texts_prefix(qas, i);
    lemma_qas_texts_prefix(qas, i + 1);
    lemma_qas_texts_snoc(qas, i);
    assert(qas_offset(qas, i + 1) == qas_offset(qas, i) + qa_texts(qas[i]).len());
    assert(qas_texts(qas).take(qas_offset(qas, i + 1))[qas_offset(qas, i) + k] == qas_texts(
        qas,
    )[qas_offset(qas, i) + k]);
    assert((qas_texts(qas.take(i)) + qa_texts(qas[i]))[qas_offset(qas, i) + k] == qa_texts(
        qas[i],
    )[k]);
}

/// Extending a prefix of groups by one appends that group's texts.
pub proof fn lemma_paras_texts_snoc(ps: Seq<ParagraphGroupModel>, i: int)
    requires
        0 <= i < ps.len(),
    ensures
        paras_texts(ps.take(i + 1)) == paras_texts(ps.take(i)) + para_texts(ps[i]),
    decreases i,
{
    if i == 0 {
        assert(ps.take(1).skip(1) =~= Seq::<ParagraphGroupModel>::empty());
        assert(ps.take(0) =~= Seq::<ParagraphGroupModel>::empty());
        assert(paras_texts(ps.take(1)) =~= paras_texts(ps.take(0)) + para_texts(ps[0]));
    } else {
        lemma_paras_texts_snoc(ps.skip(1), i - 1);
        assert(ps.take(i + 1).skip(1) =~= ps.skip(1).take(i));
        assert(ps.take(i).skip(1) =~= ps.skip(1).take(i - 1));
        assert(paras_texts(ps.take(i + 1)) =~= paras_texts(ps.take(i)) + para_texts(ps[i]));
    }
}

/// The texts of a prefix of groups are a prefix of the groups' texts.
pub proof fn lemma_paras_texts_prefix(ps: Seq<ParagraphGroupModel>, i: int)
    requires
        0 <= i <= ps.len(),
    ensures
        0 <= paras_offset(ps, i) <= paras_texts(ps).len(),
        paras_texts(ps.take(i)) == paras_texts(ps).take(paras_offset(ps, i)),
    decreases ps.len() - i,
{
    if i == ps.len() {
        assert(ps.take(i) =~= ps);
        assert(paras_texts(ps.take(i)) =~= paras_texts(ps).take(paras_offset(ps, i)));
    } else {
        lemma_paras_texts_prefix(ps, i + 1);
        lemma_paras_texts_snoc(ps, i);
        assert(paras_texts(ps.take(i)) =~= paras_texts(ps).take(paras_offset(ps, i)));
    }
}

/// A group's texts sit at its offset inside the groups' texts.
pub proof fn lemma_paras_texts_index(ps: Seq<ParagraphGroupModel>, i: int, k: int)
    requires
        0 <= i < ps.len(),
        0 <= k < para_texts(ps[i]).len(),
    ensures
        paras_offset(ps, i) + para_texts(ps[i]).len() <= paras_texts(ps).len(),
        paras_texts(ps)[paras_offset(ps, i) + k] == para_texts(ps[i])[k],
{
    lemma_paras_texts_prefix(ps, i);
    lemma_paras_texts_prefix(ps, i + 1);
    lemma_paras_texts_snoc(ps, i);
    assert(paras_offset(ps, i + 1) == paras_offset(ps, i) + para_texts(ps[i]).len());
    assert(paras_texts(ps).take(paras_offset(ps, i + 1))[paras_offset(ps, i) + k] == paras_texts(
        ps,
    )[paras_offset(ps, i) + k]);
    assert((paras_texts(ps.take(i)) + para_texts(ps[i]))[paras_offset(ps, i) + k] == para_texts(
        ps[i],
    )[k]);
}

/// Extending a prefix of documents by one appends that document's texts.
pub proof fn lemma_docs_texts_snoc(ds: Seq<DocumentModel>, i: int)
    requires
        0 <= i < ds.len(),
    ensures
        docs_texts(ds.take(i + 1)) == docs_texts(ds.take(i)) + doc_texts(ds[i]),
    decreases i,
{
    if i == 0 {
        assert(ds.take(1).skip(1) =~= Seq::<DocumentModel>::empty());
        assert(ds.take(0) =~= Seq::<DocumentModel>::empty());
        assert(docs_texts(ds.take(1)) =~= docs_texts(ds.take(0)) + doc_texts(ds[0]));
    } else {
        lemma_docs_texts_snoc(ds.skip(1), i - 1);
        assert(ds.take(i + 1).skip(1) =~= ds.skip(1).take(i));
        assert(ds.take(i).skip(1) =~= ds.skip(1).take(i - 1));
        assert(docs_texts(ds.take(i + 1)) =~= docs_texts(ds.take(i)) + doc_texts(ds[i]));
    }
}

/// The texts of a prefix of documents are a prefix of the documents' texts.
pub proof fn lemma_docs_texts_prefix(ds: Seq<DocumentModel>, i: int)
    requires
        0 <= i <= ds.len(),
    ensures
        0 <= docs_offset(ds, i) <= docs_texts(ds).len(),
        docs_texts(ds.take(i)) == docs_texts(ds).take(docs_offset(ds, i)),
    decreases ds.len() - i,
{
    if i == ds.len() {
        assert(ds.take(i) =~= ds);
        assert(docs_texts(ds.take(i)) =~= docs_texts(ds).take(docs_offset(ds, i)));
    } else {
        lemma_docs_texts_prefix(ds, i + 1);
        lemma_docs_texts_snoc(ds, i);
        assert(docs_texts(ds.take(i)) =~= docs_texts(ds).take(docs_offset(ds, i)));
    }
}

/// A document's texts sit at its offset inside the documents' texts.
pub proof fn lemma_docs_texts_index(ds: Seq<DocumentModel>, i: int, k: int)
    requires
        0 <= i < ds.len(),
        0 <= k < doc_texts(ds[i]).len(),
    ensures
        docs_offset(ds, i) + doc_texts(ds[i]).len() <= docs_texts(ds).len(),
        docs_texts(ds)[docs_offset(ds, i) + k] == doc_texts(ds[i])[k],
{
    lemma_docs_texts_prefix(ds, i);
    lemma_docs_texts_prefix(ds, i + 1);
    lemma_docs_texts_snoc(ds, i);
    assert(docs_offset(ds, i + 1) == docs_offset(ds, i) + doc_texts(ds[i]).len());
    assert(docs_texts(ds).take(docs_offset(ds, i + 1))[docs_offset(ds, i) + k] == docs_texts(
        ds,
    )[docs_offset(ds, i) + k]);
    assert((docs_texts(ds.take(i)) + doc_texts(ds[i]))[docs_offset(ds, i) + k] == doc_texts(
        ds[i],
    )[k]);
}

/// Appends the text of every answer, in order.
fn collect_answer_texts(ans: &Vec<Answer>, out: &mut Vec<String>)
    ensures
        final(out).deep_view() == old(out).deep_view() + answer_texts(ans.deep_view()),
{
    let ghost out0 = old(out).deep_view();
    for i in 0..ans.len()
        invariant
            out.deep_view() =~= out0 + answer_texts(ans.deep_view().take(i as int)),
    {
        let ghost prev = out.deep_view();
        out.push(ans[i].text.clone());
        proof {
            assert(out.deep_view() =~= prev.push(ans.deep_view()[i as int].text));
            assert(answer_texts(ans.deep_view().take(i + 1)) =~= answer_texts(
                ans.deep_view().take(i as int),
            ).push(ans.deep_view()[i as int].text));
            assert(out.deep_view() =~= out0 + answer_texts(ans.deep_view().take(i + 1)));
        }
    }
    proof {
        assert(ans.deep_view().take(ans.deep_view().len() as int) =~= ans.deep_view());
    }
}

/// Appends one record's texts: the question, then the active answers' texts.
/// Fails, appending nothing, when the selected answer list is absent.
fn collect_qa(qa: &QARecord, out: &mut Vec<String>) -> (ok: bool)
    ensures
        ok == qa_wf(qa.deep_view()),
        ok ==> final(out).deep_view() == old(out).deep_view() + qa_texts(qa.deep_view()),
        !ok ==> *final(out) == *old(out),
{
    let active: &Vec<Answer> = if qa.is_impossible {
        match &qa.plausible_answers {
            Some(a) => a,
            None => {
                return false;
            },
        }
    } else {
        match &qa.answers {
            Some(a) => a,
            None => {
                return false;
            },
        }
    };
    let ghost out0 = old(out).deep_view();
    out.push(qa.question.clone());
    collect_answer_texts(active, out);
    proof {
        assert(active.deep_view() == active_answers(qa.deep_view()));
        assert(out.deep_view() =~= out0 + qa_texts(qa.deep_view()));
    }
    true
}

/// Appends one paragraph group's texts: the context, then each record's.
/// Fails when some record's selected answer list is absent.
fn collect_para(p: &ParagraphGroup, out: &mut Vec<String>) -> (ok: bool)
    ensures
        ok == para_wf(p.deep_view()),
        ok ==> final(out).deep_view() == old(out).deep_view() + para_texts(p.deep_view()),
{
    let ghost out0 = old(out).deep_view();
    let ghost qas = p.qas.deep_view();
    out.push(p.context.clone());
    proof {
        assert(out.deep_view() =~= out0 + seq![p.deep_view().context] + qas_texts(qas.take(0)));
    }
    for i in 0..p.qas.len()
        invariant
            qas == p.qas.deep_view(),
            out.deep_view() =~= out0 + seq![p.deep_view().context] + qas_texts(qas.take(i as int)),
            forall|j: int| 0 <= j < i ==> qa_wf(#[trigger] qas[j]),
    {
        let ok = collect_qa(&p.qas[i], out);
        if !ok {
            proof {
                assert(p.qas.deep_view()[i as int] == p.qas@[i as int].deep_view());
                assert(!qa_wf(p.deep_view().qas[i as int]));
                assert(!para_wf(p.deep_view()));
            }
            return false;
        }
        proof {
            lemma_qas_texts_snoc(qas, i as int);
            assert(out.deep_view() =~= out0 + seq![p.deep_view().context] + qas_texts(
                qas.take(i + 1),
            ));
        }
    }
    proof {
        assert(qas.take(qas.len() as int) =~= qas);
        assert(out.deep_view() =~= out0 + para_texts(p.deep_view()));
    }
    true
}

/// Appends one document's texts: the title, then each paragraph group's.
/// Fails when some record's selected answer list is absent.
fn collect_doc(d: &Document, out: &mut Vec<String>) -> (ok: bool)
    ensures
        ok == doc_wf(d.deep_view()),
        ok ==> final(out).deep_view() == old(out).deep_view() + doc_texts(d.deep_view()),
{
    let ghost out0 = old(out).deep_view();
    let ghost ps = d.paragraphs.deep_view();
    out.push(d.title.clone());
    proof {
        assert(out.deep_view() =~= out0 + seq![d.deep_view().title] + paras_texts(ps.take(0)));
    }
    for i in 0..d.paragraphs.len()
        invariant
            ps == d.paragraphs.deep_view(),
            out.deep_view() =~= out0 + seq![d.deep_view().title] + paras_texts(ps.take(i as int)),
            forall|j: int| 0 <= j < i ==> para_wf(#[trigger] ps[j]),
    {
        let ok = collect_para(&d.paragraphs[i], out);
        if !ok {
            proof {
                assert(d.paragraphs.deep_view()[i as int] == d.paragraphs@[i as int].deep_view());
                assert(!para_wf(d.deep_view().paragraphs[i as int]));
                assert(!doc_wf(d.deep_view()));
            }
            return false;
        }
        proof {
            lemma_paras_texts_snoc(ps, i as int);
            assert(out.deep_view() =~= out0 + seq![d.deep_view().title] + paras_texts(
                ps.take(i + 1),
            ));
        }
    }
    proof {
        assert(ps.take(ps.len() as int) =~= ps);
        assert(out.deep_view() =~= out0 + doc_texts(d.deep_view()));
    }
    true
}

/// Gathers every translatable text of the dataset into one ordered batch:
/// per document its title, then per paragraph group the context followed by
/// each record's question and the text of each answer in its active list.
///
/// Returns the batch exactly when every record's selected answer list is
/// present; otherwise the input is rejected and nothing is produced.
pub fn collect_texts(d: &Dataset) -> (r: Result<Vec<String>, TransformError>)
    ensures
        match r {
            Ok(texts) => dataset_wf(d.deep_view()) && texts.deep_view() == dataset_texts(
                d.deep_view(),
            ),
            Err(e) => !dataset_wf(d.deep_view()) && e == TransformError::MissingAnswers,
        },
{
    let ghost ds = d.data.deep_view();
    let mut out: Vec<String> = Vec::new();
    proof {
        assert(out.deep_view() =~= docs_texts(ds.take(0)));
    }
    for i in 0..d.data.len()
        invariant
            ds == d.data.deep_view(),
            out.deep_view() =~= docs_texts(ds.take(i as int)),
            forall|j: int| 0 <= j < i ==> doc_wf(#[trigger] ds[j]),
    {
        let ok = collect_doc(&d.data[i], &mut out);
        if !ok {
            proof {
                assert(d.data.deep_view()[i as int] == d.data@[i as int].deep_view());
                assert(!doc_wf(d.deep_view().data[i as int]));
                assert(!dataset_wf(d.deep_view()));
            }
            return Err(TransformError::MissingAnswers);
        }
        proof {
            lemma_docs_texts_snoc(ds, i as int);
            assert(out.deep_view() =~= docs_texts(ds.take(i + 1)));
        }
    }
    proof {
        assert(ds.take(ds.len() as int) =~= ds);
        assert(out.deep_view() =~= dataset_texts(d.deep_view()));
    }
    Ok(out)
}

} // verus!
