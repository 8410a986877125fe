//! The data-integrity guarantees of rebuilding, proved once and for all.
//!
//! Each law is stated over the models and the rebuilding specification that
//! the executable functions' contracts use, so it carries over to every
//! dataset an executable run produces.

use vstd::prelude::*;

use crate::model::{
    active_answers, dataset_wf, output_version, qa_exclusive, qa_wf, AnswerModel, DatasetModel,
    DocumentModel, ParagraphGroupModel, QARecordModel,
};
use crate::rebuild::{
    rebuild_dataset, rebuild_doc, rebuild_docs, rebuild_para, rebuild_paras, rebuild_qa,
    rebuild_qas,
};
use crate::texts::{
    dataset_texts, doc_texts, docs_offset, docs_texts, lemma_docs_texts_index,
    lemma_paras_texts_index, lemma_qas_texts_index, para_texts, paras_offset, paras_texts,
    qa_texts, qas_offset, qas_texts,
};

verus! {

/// Structural fidelity: a rebuilt dataset has the same number of documents,
/// of paragraph groups per document, of records per group and of answers
/// per active answer list as the dataset it was rebuilt from, in the same
/// order.
pub proof fn lemma_structural_fidelity(d: DatasetModel, t: Seq<Seq<char>>)
    ensures
        ({
            let out = rebuild_dataset(d, t);
            &&& out.data.len() == d.data.len()
            &&& forall|i: int|
                0 <= i < d.data.len() ==> (#[trigger] out.data[i]).paragraphs.len()
                    == d.data[i].paragraphs.len()
            &&& forall|i: int, j: int|
                0 <= i < d.data.len() && 0 <= j < d.data[i].paragraphs.len() ==> (
                #[trigger] out.data[i].paragraphs[j]).qas.len() == d.data[i].paragraphs[j].qas.len()
            &&& forall|i: int, j: int, k: int|
                0 <= i < d.data.len() && 0 <= j < d.data[i].paragraphs.len() && 0 <= k
                    < d.data[i].paragraphs[j].qas.len() ==> active_answers(
                    #[trigger] out.data[i].paragraphs[j].qas[k],
                ).len() == active_answers(d.data[i].paragraphs[j].qas[k]).len()
        }),
{
}

/// Field preservation: every rebuilt record keeps its identifier and its
/// impossibility flag, and every rebuilt answer keeps its offset.
pub proof fn lemma_field_preservation(d: DatasetModel, t: Seq<Seq<char>>)
    ensures
        ({
            let out = rebuild_dataset(d, t);
            &&& forall|i: int, j: int, k: int|
                0 <= i < d.data.len() && 0 <= j < d.data[i].paragraphs.len() && 0 <= k
                    < d.data[i].paragraphs[j].qas.len() ==> {
                    let oq = #[trigger] out.data[i].paragraphs[j].qas[k];
                    let iq = d.data[i].paragraphs[j].qas[k];
                    oq.id == iq.id && oq.is_impossible == iq.is_impossible
                }
            &&& forall|i: int, j: int, k: int, l: int|
                0 <= i < d.data.len() && 0 <= j < d.data[i].paragraphs.len() && 0 <= k
                    < d.data[i].paragraphs[j].qas.len() && 0 <= l < active_answers(
                    d.data[i].paragraphs[j].qas[k],
                ).len() ==> (#[trigger] active_answers(out.data[i].paragraphs[j].qas[k])[l])
                    .answer_start == active_answers(
                    d.data[i].paragraphs[j].qas[k],
                )[l].answer_start
        }),
{
    lemma_structural_fidelity(d, t);
}

/// Mutual exclusivity: every rebuilt record carries exactly the answer list
/// its flag selects, the other left absent; on a source record that itself
/// carries exactly the selected list, presence therefore matches the source
/// field for field.
pub proof fn lemma_mutual_exclusivity(d: DatasetModel, t: Seq<Seq<char>>)
    ensures
        ({
            let out = rebuild_dataset(d, t);
            forall|i: int, j: int, k: int|
                0 <= i < d.data.len() && 0 <= j < d.data[i].paragraphs.len() && 0 <= k
                    < d.data[i].paragraphs[j].qas.len() ==> {
                    let oq = #[trigger] out.data[i].paragraphs[j].qas[k];
                    let iq = d.data[i].paragraphs[j].qas[k];
                    &&& qa_exclusive(oq)
                    &&& oq.answers is Some <==> !iq.is_impossible
                    &&& oq.plausible_answers is Some <==> iq.is_impossible
                    &&& qa_exclusive(iq) ==> ((oq.answers is Some <==> iq.answers is Some) && (
                    oq.plausible_answers is Some <==> iq.plausible_answers is Some))
                }
        }),
{
}

/// What translating each text with a pointwise transform means for an
/// answer list: each text transformed, each offset kept.
pub open spec fn translated_answers(
    ans: Seq<AnswerModel>,
    f: spec_fn(Seq<char>) -> Seq<char>,
) -> Seq<AnswerModel> {
    Seq::new(ans.len(), |i: int| AnswerModel { text: f(ans[i].text), answer_start: ans[i].answer_start })
}

/// A record translated by a pointwise transform: question and active
/// answers transformed, identifier and flag kept, inactive list absent.
pub open spec fn translated_qa(qa: QARecordModel, f: spec_fn(Seq<char>) -> Seq<char>) -> QARecordModel {
    QARecordModel {
        question: f(qa.question),
        id: qa.id,
        is_impossible: qa.is_impossible,
        answers: if qa.is_impossible {
            None
        } else {
            Some(translated_answers(active_answers(qa), f))
        },
        plausible_answers: if qa.is_impossible {
            Some(translated_answers(active_answers(qa), f))
        } else {
            None
        },
    }
}

/// A paragraph group translated by a pointwise transform.
pub open spec fn translated_para(
    p: ParagraphGroupModel,
    f: spec_fn(Seq<char>) -> Seq<char>,
) -> ParagraphGroupModel {
    ParagraphGroupModel {
        context: f(p.context),
        qas: Seq::new(p.qas.len(), |i: int| translated_qa(p.qas[i], f)),
    }
}

/// A document translated by a pointwise transform.
pub open spec fn translated_doc(d: DocumentModel, f: spec_fn(Seq<char>) -> Seq<char>) -> DocumentModel {
    DocumentModel {
        title: f(d.title),
        paragraphs: Seq::new(d.paragraphs.len(), |i: int| translated_para(d.paragraphs[i], f)),
    }
}

/// A dataset translated by a pointwise transform: every translatable field
/// transformed in place, everything else kept, the fixed output tag set.
pub open spec fn translated_dataset(d: DatasetModel, f: spec_fn(Seq<char>) -> Seq<char>) -> DatasetModel {
    DatasetModel {
        version: output_version(),
        data: Seq::new(d.data.len(), |i: int| translated_doc(d.data[i], f)),
    }
}

/// Positional correspondence for one record.
proof fn lemma_qa_correspondence(qa: QARecordModel, f: spec_fn(Seq<char>) -> Seq<char>, t: Seq<Seq<char>>)
    requires
        qa_wf(qa),
        t == qa_texts(qa).map_values(f),
    ensures
        rebuild_qa(qa, t) == translated_qa(qa, f),
{
    assert(t[0] == f(qa.question));
    let ans = active_answers(qa);
    assert forall|k: int| 0 <= k < ans.len() implies t.skip(1)[k] == f(ans[k].text) by {
        assert(t[k + 1] == f(qa_texts(qa)[k + 1]));
    }
    assert(rebuild_qa(qa, t).answers =~= translated_qa(qa, f).answers);
    assert(rebuild_qa(qa, t).plausible_answers =~= translated_qa(qa, f).plausible_answers);
    assert(rebuild_qa(qa, t) =~= translated_qa(qa, f));
}

/// Positional correspondence for one paragraph group.
proof fn lemma_para_correspondence(
    p: ParagraphGroupModel,
    f: spec_fn(Seq<char>) -> Seq<char>,
    t: Seq<Seq<char>>,
)
    requires
        forall|i: int| 0 <= i < p.qas.len() ==> qa_wf(#[trigger] p.qas[i]),
        t == para_texts(p).map_values(f),
    ensures
        rebuild_para(p, t) == translated_para(p, f),
{
    assert(t[0] == f(p.context));
    assert forall|i: int| 0 <= i < p.qas.len() implies rebuild_qas(p.qas, t.skip(1))[i]
        == translated_qa(p.qas[i], f) by {
        let off = qas_offset(p.qas, i);
        let n = qa_texts(p.qas[i]).len() as int;
        lemma_qas_texts_index(p.qas, i, 0);
        let seg = t.skip(1).subrange(off, off + n);
        assert forall|k: int| 0 <= k < n implies seg[k] == qa_texts(p.qas[i]).map_values(f)[k] by {
            lemma_qas_texts_index(p.qas, i, k);
            assert(seg[k] == t[1 + off + k]);
            assert(t[1 + off + k] == f(para_texts(p)[1 + off + k]));
            assert(para_texts(p)[1 + off + k] == qas_texts(p.qas)[off + k]);
        }
        assert(seg =~= qa_texts(p.qas[i]).map_values(f));
        lemma_qa_correspondence(p.qas[i], f, seg);
    }
    assert(rebuild_qas(p.qas, t.skip(1)) =~= translated_para(p, f).qas);
    assert(rebuild_para(p, t) =~= translated_para(p, f));
}

/// Positional correspondence for one document.
proof fn lemma_doc_correspondence(d: DocumentModel, f: spec_fn(Seq<char>) -> Seq<char>, t: Seq<Seq<char>>)
    requires
        forall|i: int, j: int|
            0 <= i < d.paragraphs.len() && 0 <= j < d.paragraphs[i].qas.len() ==> qa_wf(
                #[trigger] d.paragraphs[i].qas[j],
            ),
        t == doc_texts(d).map_values(f),
    ensures
        rebuild_doc(d, t) == translated_doc(d, f),
{
    assert(t[0] == f(d.title));
    assert forall|i: int| 0 <= i < d.paragraphs.len() implies rebuild_paras(
        d.paragraphs,
        t.skip(1),
    )[i] == translated_para(d.paragraphs[i], f) by {
        let off = paras_offset(d.paragraphs, i);
        let n = para_texts(d.paragraphs[i]).len() as int;
        lemma_paras_texts_index(d.paragraphs, i, 0);
        let seg = t.skip(1).subrange(off, off + n);
        assert forall|k: int| 0 <= k < n implies seg[k] == para_texts(
            d.paragraphs[i],
        ).map_values(f)[k] by {
            lemma_paras_texts_index(d.paragraphs, i, k);
            assert(seg[k] == t[1 + off + k]);
            assert(t[1 + off + k] == f(doc_texts(d)[1 + off + k]));
            assert(doc_texts(d)[1 + off + k] == paras_texts(d.paragraphs)[off + k]);
        }
        assert(seg =~= para_texts(d.paragraphs[i]).map_values(f));
        lemma_para_correspondence(d.paragraphs[i], f, seg);
    }
    assert(rebuild_paras(d.paragraphs, t.skip(1)) =~= translated_doc(d, f).paragraphs);
    assert(rebuild_doc(d, t) =~= translated_doc(d, f));
}

/// Positional correspondence: rebuilding a well-formed dataset from its own
/// batch with every text transformed pointwise by `f` yields exactly the
/// dataset in which every translatable field is transformed by `f` in
/// place — across every nesting level and every batch position — with all
/// identifiers, flags and offsets kept.
pub proof fn lemma_positional_correspondence(d: DatasetModel, f: spec_fn(Seq<char>) -> Seq<char>)
    requires
        dataset_wf(d),
    ensures
        rebuild_dataset(d, dataset_texts(d).map_values(f)) == translated_dataset(d, f),
{
    let t = dataset_texts(d).map_values(f);
    assert forall|i: int| 0 <= i < d.data.len() implies rebuild_docs(d.data, t)[i]
        == translated_doc(d.data[i], f) by {
        let off = docs_offset(d.data, i);
        let n = doc_texts(d.data[i]).len() as int;
        lemma_docs_texts_index(d.data, i, 0);
        let seg = t.subrange(off, off + n);
        assert forall|k: int| 0 <= k < n implies seg[k] == doc_texts(d.data[i]).map_values(f)[k] by {
            lemma_docs_texts_index(d.data, i, k);
            assert(seg[k] == t[off + k]);
            assert(t[off + k] == f(docs_texts(d.data)[off + k]));
        }
        assert(seg =~= doc_texts(d.data[i]).map_values(f));
        lemma_doc_correspondence(d.data[i], f, seg);
    }
    assert(rebuild_docs(d.data, t) =~= translated_dataset(d, f).data);
    assert(rebuild_dataset(d, t) =~= translated_dataset(d, f));
}

} // verus!
