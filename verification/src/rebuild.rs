//! Rebuilding a dataset from its translated batch.
//!
//! Given a dataset and a batch of translated texts of exactly the length of
//! the batch gathered by [`crate::texts::collect_texts`], rebuilding produces
//! a fresh, structurally identical dataset in which every translatable field
//! holds the batch text at its position and every identifier, flag and
//! answer offset is carried through unchanged.

use vstd::prelude::*;

use crate::model::{
    active_answers, dataset_wf, doc_wf, output_version, para_wf, qa_wf, Answer, AnswerModel,
    Dataset, DatasetModel, Document, DocumentModel, ParagraphGroup, ParagraphGroupModel, QARecord,
    QARecordModel, TransformError,
};
use crate::texts::{
    collect_texts, dataset_texts, doc_texts, docs_offset, para_texts, paras_offset, qa_texts,
    qas_offset, lemma_docs_texts_prefix, lemma_docs_texts_snoc, lemma_paras_texts_prefix,
    lemma_paras_texts_snoc, lemma_qas_texts_prefix, lemma_qas_texts_snoc,
};

verus! {

/// Each rebuilt answer pairs the translated text at its position with the
/// untouched offset of the answer it replaces.
pub open spec fn rebuild_answers(ans: Seq<AnswerModel>, t: Seq<Seq<char>>) -> Seq<AnswerModel>
    recommends
        t.len() == ans.len(),
{
    Seq::new(ans.len(), |i: int| AnswerModel { text: t[i], answer_start: ans[i].answer_start })
}

/// A rebuilt record keeps its identifier and flag, takes the first batch
/// text as its question, rebuilds the active answer list from the rest, and
/// leaves the inactive list absent.
pub open spec fn rebuild_qa(qa: QARecordModel, t: Seq<Seq<char>>) -> QARecordModel
    recommends
        qa_wf(qa),
        t.len() == qa_texts(qa).len(),
{
    let rebuilt = rebuild_answers(active_answers(qa), t.skip(1));
    QARecordModel {
        question: t[0],
        id: qa.id,
        is_impossible: qa.is_impossible,
        answers: if qa.is_impossible {
            None
        } else {
            Some(rebuilt)
        },
        plausible_answers: if qa.is_impossible {
            Some(rebuilt)
        } else {
            None
        },
    }
}

/// Each record is rebuilt from its own segment of the batch.
pub open spec fn rebuild_qas(qas: Seq<QARecordModel>, t: Seq<Seq<char>>) -> Seq<QARecordModel> {
    Seq::new(
        qas.len(),
        |i: int|
            rebuild_qa(
                qas[i],
                t.subrange(qas_offset(qas, i), qas_offset(qas, i) + qa_texts(qas[i]).len() as int),
            ),
    )
}

/// A rebuilt group takes the first batch text as its context and rebuilds
/// its records from the rest.
pub open spec fn rebuild_para(p: ParagraphGroupModel, t: Seq<Seq<char>>) -> ParagraphGroupModel {
    ParagraphGroupModel { context: t[0], qas: rebuild_qas(p.qas, t.skip(1)) }
}

/// Each group is rebuilt from its own segment of the batch.
pub open spec fn rebuild_paras(ps: Seq<ParagraphGroupModel>, t: Seq<Seq<char>>) -> Seq<
    ParagraphGroupModel,
> {
    Seq::new(
        ps.len(),
        |i: int|
            rebuild_para(
                ps[i],
                t.subrange(
                    paras_offset(ps, i),
                    paras_offset(ps, i) + para_texts(ps[i]).len() as int,
                ),
            ),
    )
}

/// A rebuilt document takes the first batch text as its title and rebuilds
/// its groups from the rest.
pub open spec fn rebuild_doc(d: DocumentModel, t: Seq<Seq<char>>) -> DocumentModel {
    DocumentModel { title: t[0], paragraphs: rebuild_paras(d.paragraphs, t.skip(1)) }
}

/// Each document is rebuilt from its own segment of the batch.
pub open spec fn rebuild_docs(ds: Seq<DocumentModel>, t: Seq<Seq<char>>) -> Seq<DocumentModel> {
    Seq::new(
        ds.len(),
        |i: int|
            rebuild_doc(
                ds[i],
                t.subrange(docs_offset(ds, i), docs_offset(ds, i) + doc_texts(ds[i]).len() as int),
            ),
    )
}

/// The rebuilt dataset: the fixed output format tag, and every document
/// rebuilt from the batch.
pub open spec fn rebuild_dataset(d: DatasetModel, t: Seq<Seq<char>>) -> DatasetModel
    recommends
        dataset_wf(d),
        t.len() == dataset_texts(d).len(),
{
    DatasetModel { version: output_version(), data: rebuild_docs(d.data, t) }
}

/// Rebuilds one answer list: translated text zipped with untouched offsets.
fn rebuild_answers_exec(ans: &Vec<Answer>, t: &Vec<String>, start: usize) -> (r: Vec<Answer>)
    requires
        start + ans.deep_view().len() <= t.deep_view().len(),
    ensures
        r.deep_view() == rebuild_answers(
            ans.deep_view(),
            t.deep_view().subrange(start as int, start as int + ans.deep_view().len() as int),
        ),
{
    proof {
        assert(t@.len() == t.len());
    }
    let mut r: Vec<Answer> = Vec::new();
    for i in 0..ans.len()
        invariant
            t@.len() == t.len(),
            start + ans.deep_view().len() <= t.deep_view().len(),
            r.deep_view().len() == i,
            forall|j: int|
                0 <= j < i ==> #[trigger] r.deep_view()[j] == (AnswerModel {
                    text: t.deep_view()[start + j],
                    answer_start: ans.deep_view()[j].answer_start,
                }),
    {
        let ghost prev = r.deep_view();
        r.push(Answer { text: t[start + i].clone(), answer_start: ans[i].answer_start });
        proof {
            assert(r.deep_view() =~= prev.push(
                AnswerModel {
                    text: t.deep_view()[start + i],
                    answer_start: ans.deep_view()[i as int].answer_start,
                },
            ));
        }
    }
    proof {
        assert(r.deep_view() =~= rebuild_answers(
            ans.deep_view(),
            t.deep_view().subrange(start as int, start as int + ans.deep_view().len() as int),
        ));
    }
    r
}

/// Rebuilds one record from its batch segment starting at `start`: the
/// question text, then the active answer list, with identifier and flag
/// kept and the inactive list left absent. Returns the rebuilt record and
/// the position just past the segment it consumed.
fn rebuild_qa_exec(qa: &QARecord, t: &Vec<String>, start: usize) -> (r: (QARecord, usize))
    requires
        qa_wf(qa.deep_view()),
        start + qa_texts(qa.deep_view()).len() <= t.deep_view().len(),
    ensures
        r.1 == start + qa_texts(qa.deep_view()).len(),
        r.0.deep_view() == rebuild_qa(
            qa.deep_view(),
            t.deep_view().subrange(
                start as int,
                start as int + qa_texts(qa.deep_view()).len() as int,
            ),
        ),
{
    let question = t[start].clone();
    let active: &Vec<Answer> = if qa.is_impossible {
        match &qa.plausible_answers {
            Some(a) => a,
            None => vstd::pervasive::unreached(),
        }
    } else {
        match &qa.answers {
            Some(a) => a,
            None => vstd::pervasive::unreached(),
        }
    };
    proof {
        assert(t@.len() == t.len());
        assert(active.deep_view() == active_answers(qa.deep_view()));
        assert(qa_texts(qa.deep_view()).len() == 1 + active_answers(qa.deep_view()).len());
        assert(active@.len() == active.len());
    }
    let answers = rebuild_answers_exec(active, t, start + 1);
    let end = start + 1 + active.len();
    let rec = if qa.is_impossible {
        QARecord {
            question,
            id: qa.id.clone(),
            answers: None,
            plausible_answers: Some(answers),
            is_impossible: qa.is_impossible,
        }
    } else {
        QARecord {
            question,
            id: qa.id.clone(),
            answers: Some(answers),
            plausible_answers: None,
            is_impossible: qa.is_impossible,
        }
    };
    proof {
        let qdv = qa.deep_view();
        let tseg = t.deep_view().subrange(
            start as int,
            start as int + qa_texts(qdv).len() as int,
        );
        assert(tseg.skip(1) =~= t.deep_view().subrange(
            start + 1,
            start as int + 1 + active_answers(qdv).len() as int,
        ));
        assert(rec.deep_view() =~= rebuild_qa(qdv, tseg));
    }
    (rec, end)
}

/// Rebuilds one paragraph group from its batch segment starting at `start`:
/// the context text, then each record in order. Returns the rebuilt group
/// and the position just past the segment it consumed.
fn rebuild_para_exec(p: &ParagraphGroup, t: &Vec<String>, start: usize) -> (r: (
    ParagraphGroup,
    usize,
))
    requires
        para_wf(p.deep_view()),
        start + para_texts(p.deep_view()).len() <= t.deep_view().len(),
    ensures
        r.1 == start + para_texts(p.deep_view()).len(),
        r.0.deep_view() == rebuild_para(
            p.deep_view(),
            t.deep_view().subrange(
                start as int,
                start as int + para_texts(p.deep_view()).len() as int,
            ),
        ),
{
    let ghost qas_dv = p.qas.deep_view();
    proof {
        assert(t@.len() == t.len());
        assert(para_texts(p.deep_view()).len() >= 1);
    }
    let context = t[start].clone();
    let mut qas: Vec<QARecord> = Vec::new();
    let mut cursor: usize = start + 1;
    for i in 0..p.qas.len()
        invariant
            qas_dv == p.qas.deep_view(),
            para_wf(p.deep_view()),
            start + para_texts(p.deep_view()).len() <= t.deep_view().len(),
            cursor == start as int + 1 + qas_offset(qas_dv, i as int),
            qas.deep_view().len() == i,
            forall|j: int|
                0 <= j < i ==> #[trigger] qas.deep_view()[j] == rebuild_qa(
                    qas_dv[j],
                    t.deep_view().subrange(
                        start as int + 1 + qas_offset(qas_dv, j),
                        start as int + 1 + qas_offset(qas_dv, j) + qa_texts(qas_dv[j]).len() as int,
                    ),
                ),
    {
        proof {
            lemma_qas_texts_prefix(qas_dv, i + 1);
            lemma_qas_texts_snoc(qas_dv, i as int);
            assert(p.qas.deep_view()[i as int] == p.qas@[i as int].deep_view());
            assert(qa_wf(p.deep_view().qas[i as int]));
        }
        let ghost prev = qas.deep_view();
        let (rec, end) = rebuild_qa_exec(&p.qas[i], t, cursor);
        qas.push(rec);
        cursor = end;
        proof {
            assert(qas.deep_view() =~= prev.push(rec.deep_view()));
        }
    }
    let rec = ParagraphGroup { context, qas };
    proof {
        let pdv = p.deep_view();
        lemma_qas_texts_prefix(qas_dv, qas_dv.len() as int);
        assert(qas_dv.take(qas_dv.len() as int) =~= qas_dv);
        let tseg = t.deep_view().subrange(
            start as int,
            start as int + para_texts(pdv).len() as int,
        );
        assert forall|j: int| 0 <= j < qas_dv.len() implies rec.qas.deep_view()[j] == rebuild_qas(
            pdv.qas,
            tseg.skip(1),
        )[j] by {
            lemma_qas_texts_prefix(qas_dv, j + 1);
            lemma_qas_texts_snoc(qas_dv, j);
            assert(tseg.skip(1).subrange(
                qas_offset(qas_dv, j),
                qas_offset(qas_dv, j) + qa_texts(qas_dv[j]).len() as int,
            ) =~= t.deep_view().subrange(
                start as int + 1 + qas_offset(qas_dv, j),
                start as int + 1 + qas_offset(qas_dv, j) + qa_texts(qas_dv[j]).len() as int,
            ));
        }
        assert(rec.qas.deep_view() =~= rebuild_qas(pdv.qas, tseg.skip(1)));
        assert(rec.deep_view() =~= rebuild_para(pdv, tseg));
    }
    (rec, cursor)
}

/// Rebuilds one document from its batch segment starting at `start`: the
/// title text, then each paragraph group in order. Returns the rebuilt
/// document and the position just past the segment it consumed.
fn rebuild_doc_exec(d: &Document, t: &Vec<String>, start: usize) -> (r: (Document, usize))
    requires
        doc_wf(d.deep_view()),
        start + doc_texts(d.deep_view()).len() <= t.deep_view().len(),
    ensures
        r.1 == start + doc_texts(d.deep_view()).len(),
        r.0.deep_view() == rebuild_doc(
            d.deep_view(),
            t.deep_view().subrange(
                start as int,
                start as int + doc_texts(d.deep_view()).len() as int,
            ),
        ),
{
    let ghost ps_dv = d.paragraphs.deep_view();
    proof {
        assert(t@.len() == t.len());
        assert(doc_texts(d.deep_view()).len() >= 1);
    }
    let title = t[start].clone();
    let mut paragraphs: Vec<ParagraphGroup> = Vec::new();
    let mut cursor: usize = start + 1;
    for i in 0..d.paragraphs.len()
        invariant
            ps_dv == d.paragraphs.deep_view(),
            doc_wf(d.deep_view()),
            start + doc_texts(d.deep_view()).len() <= t.deep_view().len(),
            cursor == start as int + 1 + paras_offset(ps_dv, i as int),
            paragraphs.deep_view().len() == i,
            forall|j: int|
                0 <= j < i ==> #[trigger] paragraphs.deep_view()[j] == rebuild_para(
                    ps_dv[j],
                    t.deep_view().subrange(
                        start as int + 1 + paras_offset(ps_dv, j),
                        start as int + 1 + paras_offset(ps_dv, j) + para_texts(
                            ps_dv[j],
                        ).len() as int,
                    ),
                ),
    {
        proof {
            lemma_paras_texts_prefix(ps_dv, i + 1);
            lemma_paras_texts_snoc(ps_dv, i as int);
            assert(d.paragraphs.deep_view()[i as int] == d.paragraphs@[i as int].deep_view());
            assert(para_wf(d.deep_view().paragraphs[i as int]));
        }
        let ghost prev = paragraphs.deep_view();
        let (group, end) = rebuild_para_exec(&d.paragraphs[i], t, cursor);
        paragraphs.push(group);
        cursor = end;
        proof {
            assert(paragraphs.deep_view() =~= prev.push(group.deep_view()));
        }
    }
    let rec = Document { title, paragraphs };
    proof {
        let ddv = d.deep_view();
        lemma_paras_texts_prefix(ps_dv, ps_dv.len() as int);
        assert(ps_dv.take(ps_dv.len() as int) =~= ps_dv);
        let tseg = t.deep_view().subrange(
            start as int,
            start as int + doc_texts(ddv).len() as int,
        );
        assert forall|j: int|
            0 <= j < ps_dv.len() implies rec.paragraphs.deep_view()[j] == rebuild_paras(
            ddv.paragraphs,
            tseg.skip(1),
        )[j] by {
            lemma_paras_texts_prefix(ps_dv, j + 1);
            lemma_paras_texts_snoc(ps_dv, j);
            assert(tseg.skip(1).subrange(
                paras_offset(ps_dv, j),
                paras_offset(ps_dv, j) + para_texts(ps_dv[j]).len() as int,
            ) =~= t.deep_view().subrange(
                start as int + 1 + paras_offset(ps_dv, j),
                start as int + 1 + paras_offset(ps_dv, j) + para_texts(ps_dv[j]).len() as int,
            ));
        }
        assert(rec.paragraphs.deep_view() =~= rebuild_paras(ddv.paragraphs, tseg.skip(1)));
        assert(rec.deep_view() =~= rebuild_doc(ddv, tseg));
    }
    (rec, cursor)
}

/// Rebuilds the whole dataset from a batch of exactly the right length.
fn rebuild_dataset_exec(d: &Dataset, t: &Vec<String>) -> (r: Dataset)
    requires
        dataset_wf(d.deep_view()),
        t.deep_view().len() == dataset_texts(d.deep_view()).len(),
    ensures
        r.deep_view() == rebuild_dataset(d.deep_view(), t.deep_view()),
{
    let ghost ds_dv = d.data.deep_view();
    let mut data: Vec<Document> = Vec::new();
    let mut cursor: usize = 0;
    for i in 0..d.data.len()
        invariant
            ds_dv == d.data.deep_view(),
            dataset_wf(d.deep_view()),
            t.deep_view().len() == dataset_texts(d.deep_view()).len(),
            cursor == docs_offset(ds_dv, i as int),
            data.deep_view().len() == i,
            forall|j: int|
                0 <= j < i ==> #[trigger] data.deep_view()[j] == rebuild_doc(
                    ds_dv[j],
                    t.deep_view().subrange(
                        docs_offset(ds_dv, j),
                        docs_offset(ds_dv, j) + doc_texts(ds_dv[j]).len() as int,
                    ),
                ),
    {
        proof {
            lemma_docs_texts_prefix(ds_dv, i + 1);
            lemma_docs_texts_snoc(ds_dv, i as int);
            assert(d.data.deep_view()[i as int] == d.data@[i as int].deep_view());
            assert(doc_wf(d.deep_view().data[i as int]));
        }
        let ghost prev = data.deep_view();
        let (doc, end) = rebuild_doc_exec(&d.data[i], t, cursor);
        data.push(doc);
        cursor = end;
        proof {
            assert(data.deep_view() =~= prev.push(doc.deep_view()));
        }
    }
    let out = Dataset { version: "v2.0".to_owned(), data };
    proof {
        let ddv = d.deep_view();
        assert forall|j: int| 0 <= j < ds_dv.len() implies out.data.deep_view()[j] == rebuild_docs(
            ddv.data,
            t.deep_view(),
        )[j] by {
            assert(data.deep_view()[j] == rebuild_doc(
                ds_dv[j],
                t.deep_view().subrange(
                    docs_offset(ds_dv, j),
                    docs_offset(ds_dv, j) + doc_texts(ds_dv[j]).len() as int,
                ),
            ));
        }
        assert(out.data.deep_view() =~= rebuild_docs(ddv.data, t.deep_view()));
        assert(out.deep_view() =~= rebuild_dataset(ddv, t.deep_view()));
    }
    out
}

/// Applies a batch of translated texts to the dataset it was gathered from.
///
/// Exactly one of three things happens. A dataset in which some record's
/// selected answer list is absent is rejected as ill-formed input. A batch
/// whose length differs from the dataset's batch of translatable texts is
/// rejected as a backend length mismatch, never silently truncated or
/// padded. Otherwise the rebuilt dataset is returned: same shape, same
/// identifiers, flags and offsets, each translatable field replaced by the
/// batch text at its position.
pub fn apply_translations(d: &Dataset, t: &Vec<String>) -> (r: Result<Dataset, TransformError>)
    ensures
        !dataset_wf(d.deep_view()) ==> r == Err::<Dataset, TransformError>(
            TransformError::MissingAnswers,
        ),
        dataset_wf(d.deep_view()) && t.deep_view().len() != dataset_texts(d.deep_view()).len()
            ==> r == Err::<Dataset, TransformError>(TransformError::BatchLengthMismatch),
        dataset_wf(d.deep_view()) && t.deep_view().len() == dataset_texts(d.deep_view()).len()
            ==> (r matches Ok(out) && out.deep_view() == rebuild_dataset(
            d.deep_view(),
            t.deep_view(),
        )),
{
    let expected = match collect_texts(d) {
        Ok(texts) => texts,
        Err(e) => {
            return Err(e);
        },
    };
    if t.len() != expected.len() {
        return Err(TransformError::BatchLengthMismatch);
    }
    Ok(rebuild_dataset_exec(d, t))
}

} // verus!
