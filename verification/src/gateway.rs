//! The translation backend boundary.
//!
//! The backend is the DeepL REST service, reached through the `deepl_api`
//! client. Its reply is validated, never trusted: the rebuilt dataset exists
//! only when the reply has exactly one text per submitted text, and every
//! guarantee about the output is stated over whatever batch came back.

use vstd::prelude::*;

use crate::model::{dataset_wf, Dataset, TransformError};
use crate::rebuild::{apply_translations, rebuild_dataset};
use crate::texts::{collect_texts, dataset_texts};

verus! {

/// Run-level configuration of the translation backend: the credential and
/// the fixed language pair, resolved once at process start and never read
/// from the environment inside translation logic.
pub struct GatewayConfig {
    pub api_key: String,
    pub source_language: String,
    pub target_language: String,
}

#[verifier::external_type_specification]
#[verifier::external_body]
pub struct ExDeepLError(deepl_api::Error);

/// Relies on `deepl_api::DeepL::new` and `deepl_api::DeepL::translate`:
/// submits the batch to be translated between the configured language pair
/// and hands back the texts of the service's reply, in the reply's order,
/// or the transport or server error. Nothing is promised of the reply's
/// contents: the reply of a remote service is validated by the caller
/// instead.
#[verifier::external_body]
fn deepl_translate(cfg: &GatewayConfig, texts: Vec<String>) -> Result<
    Vec<String>,
    deepl_api::Error,
> {
    let client = deepl_api::DeepL::new(cfg.api_key.clone());
    let list = deepl_api::TranslatableTextList {
        source_language: Some(cfg.source_language.clone()),
        target_language: cfg.target_language.clone(),
        texts,
    };
    match client.translate(None, list) {
        Ok(translated) => Ok(translated.into_iter().map(|u| u.text).collect()),
        Err(e) => Err(e),
    }
}

/// Translates one batch of texts through the backend.
///
/// The empty batch is answered empty at once, without a backend call. A
/// backend failure is reported as such; nothing is promised of a non-empty
/// reply's length or contents, which the caller must validate.
pub fn translate_batch(cfg: &GatewayConfig, texts: Vec<String>) -> (r: Result<
    Vec<String>,
    TransformError,
>)
    ensures
        texts@.len() == 0 ==> (r matches Ok(out) && out@.len() == 0),
        r matches Err(e) ==> e == TransformError::GatewayFailure,
{
    if texts.len() == 0 {
        return Ok(Vec::new());
    }
    match deepl_translate(cfg, texts) {
        Ok(out) => Ok(out),
        Err(_) => Err(TransformError::GatewayFailure),
    }
}

/// Translates a whole dataset: gathers its translatable texts into one
/// ordered batch, has the backend translate the batch, and rebuilds the
/// dataset from the reply.
///
/// An ill-formed dataset (a record whose selected answer list is absent) is
/// rejected before any backend call. Whatever batch the backend returns, a
/// translated dataset is produced only from a reply of exactly the
/// submitted length, rebuilt position by position; a reply of any other
/// length aborts the run. A well-formed dataset with nothing to translate
/// succeeds without any backend call.
pub fn translate_dataset(cfg: &GatewayConfig, d: &Dataset) -> (r: Result<Dataset, TransformError>)
    ensures
        !dataset_wf(d.deep_view()) ==> r == Err::<Dataset, TransformError>(
            TransformError::MissingAnswers,
        ),
        dataset_wf(d.deep_view()) ==> r != Err::<Dataset, TransformError>(
            TransformError::MissingAnswers,
        ),
        r matches Ok(out) ==> dataset_wf(d.deep_view()) && (exists|t: Seq<Seq<char>>|
            t.len() == dataset_texts(d.deep_view()).len() && out.deep_view() == rebuild_dataset(
                d.deep_view(),
                t,
            )),
        dataset_wf(d.deep_view()) && dataset_texts(d.deep_view()).len() == 0 ==> (r matches Ok(out)
            && out.deep_view() == rebuild_dataset(d.deep_view(), Seq::empty())),
{
    let texts = match collect_texts(d) {
        Ok(texts) => texts,
        Err(e) => {
            return Err(e);
        },
    };
    let translated = match translate_batch(cfg, texts) {
        Ok(translated) => translated,
        Err(e) => {
            return Err(e);
        },
    };
    let r = apply_translations(d, &translated);
    proof {
        if r is Ok {
            let w = translated.deep_view();
            assert(w.len() == dataset_texts(d.deep_view()).len() && r->Ok_0.deep_view()
                == rebuild_dataset(d.deep_view(), w));
        }
        if dataset_texts(d.deep_view()).len() == 0 {
            assert(translated.deep_view() =~= Seq::<Seq<char>>::empty());
        }
    }
    r
}

} // verus!
