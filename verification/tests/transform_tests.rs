use squad_translate::model::{Answer, Dataset, Document, ParagraphGroup, QARecord, TransformError};
use squad_translate::rebuild::apply_translations;
use squad_translate::texts::collect_texts;

fn answer(text: &str, answer_start: u32) -> Answer {
    Answer { text: text.to_string(), answer_start }
}

fn possible_qa(question: &str, id: &str, answers: Vec<Answer>) -> QARecord {
    QARecord {
        question: question.to_string(),
        id: id.to_string(),
        answers: Some(answers),
        plausible_answers: None,
        is_impossible: false,
    }
}

fn impossible_qa(question: &str, id: &str, plausible: Vec<Answer>) -> QARecord {
    QARecord {
        question: question.to_string(),
        id: id.to_string(),
        answers: None,
        plausible_answers: Some(plausible),
        is_impossible: true,
    }
}

fn sample_dataset() -> Dataset {
    Dataset {
        version: "input-version".to_string(),
        data: vec![
            Document {
                title: "first title".to_string(),
                paragraphs: vec![
                    ParagraphGroup {
                        context: "first context".to_string(),
                        qas: vec![
                            possible_qa(
                                "question one",
                                "id-1",
                                vec![answer("alpha", 0), answer("beta", 6)],
                            ),
                            impossible_qa("question two", "id-2", vec![answer("gamma", 3)]),
                        ],
                    },
                    ParagraphGroup { context: "second context".to_string(), qas: vec![] },
                ],
            },
            Document {
                title: "second title".to_string(),
                paragraphs: vec![ParagraphGroup {
                    context: "third context".to_string(),
                    qas: vec![possible_qa("question three", "id-3", vec![])],
                }],
            },
        ],
    }
}

/// A deterministic stand-in for the translation backend.
fn uppercase_batch(texts: &[String]) -> Vec<String> {
    texts.iter().map(|t| t.to_uppercase()).collect()
}

#[test]
fn collects_texts_in_document_order() {
    let d = sample_dataset();
    let texts = collect_texts(&d).unwrap();
    assert_eq!(
        texts,
        vec![
            "first title".to_string(),
            "first context".to_string(),
            "question one".to_string(),
            "alpha".to_string(),
            "beta".to_string(),
            "question two".to_string(),
            "gamma".to_string(),
            "second context".to_string(),
            "second title".to_string(),
            "third context".to_string(),
            "question three".to_string(),
        ]
    );
}

#[test]
fn structural_fidelity_on_sample() {
    let d = sample_dataset();
    let texts = collect_texts(&d).unwrap();
    let out = apply_translations(&d, &uppercase_batch(&texts)).unwrap();
    assert_eq!(out.data.len(), d.data.len());
    for (od, id) in out.data.iter().zip(d.data.iter()) {
        assert_eq!(od.paragraphs.len(), id.paragraphs.len());
        for (op, ip) in od.paragraphs.iter().zip(id.paragraphs.iter()) {
            assert_eq!(op.qas.len(), ip.qas.len());
            for (oq, iq) in op.qas.iter().zip(ip.qas.iter()) {
                let oa = if oq.is_impossible { &oq.plausible_answers } else { &oq.answers };
                let ia = if iq.is_impossible { &iq.plausible_answers } else { &iq.answers };
                assert_eq!(oa.as_ref().unwrap().len(), ia.as_ref().unwrap().len());
            }
        }
    }
}

#[test]
fn fields_are_preserved_on_sample() {
    let d = sample_dataset();
    let texts = collect_texts(&d).unwrap();
    let out = apply_translations(&d, &uppercase_batch(&texts)).unwrap();
    for (od, id) in out.data.iter().zip(d.data.iter()) {
        for (op, ip) in od.paragraphs.iter().zip(id.paragraphs.iter()) {
            for (oq, iq) in op.qas.iter().zip(ip.qas.iter()) {
                assert_eq!(oq.id, iq.id);
                assert_eq!(oq.is_impossible, iq.is_impossible);
                let oa = if oq.is_impossible { &oq.plausible_answers } else { &oq.answers };
                let ia = if iq.is_impossible { &iq.plausible_answers } else { &iq.answers };
                for (o, i) in oa.as_ref().unwrap().iter().zip(ia.as_ref().unwrap().iter()) {
                    assert_eq!(o.answer_start, i.answer_start);
                }
            }
        }
    }
}

#[test]
fn exactly_one_answer_list_in_output() {
    let d = sample_dataset();
    let texts = collect_texts(&d).unwrap();
    let out = apply_translations(&d, &uppercase_batch(&texts)).unwrap();
    for (od, id) in out.data.iter().zip(d.data.iter()) {
        for (op, ip) in od.paragraphs.iter().zip(id.paragraphs.iter()) {
            for (oq, iq) in op.qas.iter().zip(ip.qas.iter()) {
                assert_eq!(oq.answers.is_some(), !oq.is_impossible);
                assert_eq!(oq.plausible_answers.is_some(), oq.is_impossible);
                assert_eq!(oq.answers.is_some(), iq.answers.is_some());
                assert_eq!(oq.plausible_answers.is_some(), iq.plausible_answers.is_some());
            }
        }
    }
}

#[test]
fn positional_correspondence_under_uppercasing() {
    let d = sample_dataset();
    let texts = collect_texts(&d).unwrap();
    let out = apply_translations(&d, &uppercase_batch(&texts)).unwrap();
    for (od, id) in out.data.iter().zip(d.data.iter()) {
        assert_eq!(od.title, id.title.to_uppercase());
        for (op, ip) in od.paragraphs.iter().zip(id.paragraphs.iter()) {
            assert_eq!(op.context, ip.context.to_uppercase());
            for (oq, iq) in op.qas.iter().zip(ip.qas.iter()) {
                assert_eq!(oq.question, iq.question.to_uppercase());
                let oa = if oq.is_impossible { &oq.plausible_answers } else { &oq.answers };
                let ia = if iq.is_impossible { &iq.plausible_answers } else { &iq.answers };
                for (o, i) in oa.as_ref().unwrap().iter().zip(ia.as_ref().unwrap().iter()) {
                    assert_eq!(o.text, i.text.to_uppercase());
                }
            }
        }
    }
}

#[test]
fn version_is_fixed_output_tag() {
    let d = sample_dataset();
    let texts = collect_texts(&d).unwrap();
    let out = apply_translations(&d, &texts).unwrap();
    assert_eq!(out.version, "v2.0");
}

#[test]
fn empty_dataset_round_trips() {
    let d = Dataset { version: "x".to_string(), data: vec![] };
    let texts = collect_texts(&d).unwrap();
    assert!(texts.is_empty());
    let out = apply_translations(&d, &texts).unwrap();
    assert!(out.data.is_empty());
    assert_eq!(out.version, "v2.0");
}

#[test]
fn empty_paragraph_list_round_trips() {
    let d = Dataset {
        version: "x".to_string(),
        data: vec![Document { title: "t".to_string(), paragraphs: vec![] }],
    };
    let texts = collect_texts(&d).unwrap();
    assert_eq!(texts, vec!["t".to_string()]);
    let out = apply_translations(&d, &uppercase_batch(&texts)).unwrap();
    assert_eq!(out.data.len(), 1);
    assert_eq!(out.data[0].title, "T");
    assert!(out.data[0].paragraphs.is_empty());
}

#[test]
fn empty_active_answer_list_round_trips() {
    let d = Dataset {
        version: "x".to_string(),
        data: vec![Document {
            title: "t".to_string(),
            paragraphs: vec![ParagraphGroup {
                context: "c".to_string(),
                qas: vec![possible_qa("q", "id-0", vec![])],
            }],
        }],
    };
    let texts = collect_texts(&d).unwrap();
    assert_eq!(texts.len(), 3);
    let out = apply_translations(&d, &uppercase_batch(&texts)).unwrap();
    let qa = &out.data[0].paragraphs[0].qas[0];
    assert_eq!(qa.answers.as_ref().unwrap().len(), 0);
    assert!(qa.plausible_answers.is_none());
}

#[test]
fn missing_selected_answers_is_an_input_error() {
    let d = Dataset {
        version: "x".to_string(),
        data: vec![Document {
            title: "t".to_string(),
            paragraphs: vec![ParagraphGroup {
                context: "c".to_string(),
                qas: vec![QARecord {
                    question: "q".to_string(),
                    id: "id-0".to_string(),
                    answers: None,
                    plausible_answers: Some(vec![answer("a", 0)]),
                    is_impossible: false,
                }],
            }],
        }],
    };
    assert_eq!(collect_texts(&d).unwrap_err(), TransformError::MissingAnswers);
    assert_eq!(apply_translations(&d, &vec![]).unwrap_err(), TransformError::MissingAnswers);
}

#[test]
fn missing_plausible_answers_on_impossible_is_an_input_error() {
    let d = Dataset {
        version: "x".to_string(),
        data: vec![Document {
            title: "t".to_string(),
            paragraphs: vec![ParagraphGroup {
                context: "c".to_string(),
                qas: vec![QARecord {
                    question: "q".to_string(),
                    id: "id-0".to_string(),
                    answers: Some(vec![answer("a", 0)]),
                    plausible_answers: None,
                    is_impossible: true,
                }],
            }],
        }],
    };
    assert_eq!(collect_texts(&d).unwrap_err(), TransformError::MissingAnswers);
}

#[test]
fn short_batch_is_a_backend_error() {
    let d = sample_dataset();
    let texts = collect_texts(&d).unwrap();
    let mut short = uppercase_batch(&texts);
    short.pop();
    assert_eq!(apply_translations(&d, &short).unwrap_err(), TransformError::BatchLengthMismatch);
}

#[test]
fn long_batch_is_a_backend_error() {
    let d = sample_dataset();
    let texts = collect_texts(&d).unwrap();
    let mut long = uppercase_batch(&texts);
    long.push("extra".to_string());
    assert_eq!(apply_translations(&d, &long).unwrap_err(), TransformError::BatchLengthMismatch);
}

#[test]
fn end_to_end_single_record_example() {
    let d = Dataset {
        version: "v2.0".to_string(),
        data: vec![Document {
            title: "T".to_string(),
            paragraphs: vec![ParagraphGroup {
                context: "C".to_string(),
                qas: vec![possible_qa("Q", "1", vec![answer("A", 0)])],
            }],
        }],
    };
    let texts = collect_texts(&d).unwrap();
    let out = apply_translations(&d, &uppercase_batch(&texts)).unwrap();
    assert_eq!(out.data.len(), 1);
    let doc = &out.data[0];
    assert_eq!(doc.title, "T".to_uppercase());
    assert_eq!(doc.paragraphs.len(), 1);
    let para = &doc.paragraphs[0];
    assert_eq!(para.context, "C".to_uppercase());
    assert_eq!(para.qas.len(), 1);
    let qa = &para.qas[0];
    assert_eq!(qa.question, "Q".to_uppercase());
    assert_eq!(qa.id, "1");
    assert!(!qa.is_impossible);
    assert!(qa.plausible_answers.is_none());
    let answers = qa.answers.as_ref().unwrap();
    assert_eq!(answers.len(), 1);
    assert_eq!(answers[0].text, "A".to_uppercase());
    assert_eq!(answers[0].answer_start, 0);
}

#[test]
fn active_list_follows_the_flag_not_the_other_field() {
    // A record carrying both lists is rebuilt with only the selected one.
    let d = Dataset {
        version: "x".to_string(),
        data: vec![Document {
            title: "t".to_string(),
            paragraphs: vec![ParagraphGroup {
                context: "c".to_string(),
                qas: vec![QARecord {
                    question: "q".to_string(),
                    id: "id-0".to_string(),
                    answers: Some(vec![answer("kept", 4)]),
                    plausible_answers: Some(vec![answer("dropped", 9)]),
                    is_impossible: false,
                }],
            }],
        }],
    };
    let texts = collect_texts(&d).unwrap();
    assert_eq!(texts, vec!["t".to_string(), "c".to_string(), "q".to_string(), "kept".to_string()]);
    let out = apply_translations(&d, &uppercase_batch(&texts)).unwrap();
    let qa = &out.data[0].paragraphs[0].qas[0];
    assert!(qa.plausible_answers.is_none());
    let answers = qa.answers.as_ref().unwrap();
    assert_eq!(answers.len(), 1);
    assert_eq!(answers[0].text, "KEPT");
    assert_eq!(answers[0].answer_start, 4);
}
