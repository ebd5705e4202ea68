//! The Mistral adapter: its configuration, its requests and how its replies
//! are read.

use vstd::prelude::*;
use vstd::string::*;

pub mod client;
pub mod request_laws;
pub mod stream;
pub mod stream_laws;

verus! {

/// The address of the service.
pub const BASE_URL: &'static str = "https://api.mistral.ai/v1";

/// Which service to talk to, and with which models.
#[derive(Debug)]
pub struct MistralConfig {
    pub api_key: String,
    pub base_url: String,
    pub chat_model: String,
    /// The chat model where there is none.
    pub summarizer_model: Option<String>,
    /// The chat model where there is none.
    pub topic_detector_model: Option<String>,
    pub embed_model: Option<String>,
}

#[verifier::ext_equal]
pub struct MistralConfigView {
    pub api_key: Seq<char>,
    pub base_url: Seq<char>,
    pub chat_model: Seq<char>,
    pub summarizer_model: Option<Seq<char>>,
    pub topic_detector_model: Option<Seq<char>>,
    pub embed_model: Option<Seq<char>>,
}

impl View for MistralConfig {
    type V = MistralConfigView;

    open spec fn view(&self) -> MistralConfigView {
        MistralConfigView {
            api_key: self.api_key@,
            base_url: self.base_url@,
            chat_model: self.chat_model@,
            summarizer_model: self.summarizer_model.deep_view(),
            topic_detector_model: self.topic_detector_model.deep_view(),
            embed_model: self.embed_model.deep_view(),
        }
    }
}

fn copied(text: &Option<String>) -> (r: Option<String>)
    ensures
        r.deep_view() == text.deep_view(),
{
    match text {
        Some(text) => Some(text.clone()),
        None => None,
    }
}

impl Clone for MistralConfig {
    fn clone(&self) -> (r: Self)
        ensures
            r@ == self@,
    {
        MistralConfig {
            api_key: self.api_key.clone(),
            base_url: self.base_url.clone(),
            chat_model: self.chat_model.clone(),
            summarizer_model: copied(&self.summarizer_model),
            topic_detector_model: copied(&self.topic_detector_model),
            embed_model: copied(&self.embed_model),
        }
    }
}

impl MistralConfig {
    pub fn new(api_key: &str, chat_model: &str) -> (r: Self)
        ensures
            r@ == (MistralConfigView {
                api_key: api_key@,
                base_url: BASE_URL@,
                chat_model: chat_model@,
                summarizer_model: None,
                topic_detector_model: None,
                embed_model: None,
            }),
    {
        MistralConfig {
            api_key: api_key.to_owned(),
            base_url: BASE_URL.to_owned(),
            chat_model: chat_model.to_owned(),
            summarizer_model: None,
            topic_detector_model: None,
            embed_model: None,
        }
    }

    pub fn with_summarizer_model(self, model: &str) -> (r: Self)
        ensures
            r@ == (MistralConfigView { summarizer_model: Some(model@), ..self@ }),
    {
        let mut config = self;
        config.summarizer_model = Some(model.to_owned());
        config
    }

    pub fn with_topic_detector_model(self, model: &str) -> (r: Self)
        ensures
            r@ == (MistralConfigView { topic_detector_model: Some(model@), ..self@ }),
    {
        let mut config = self;
        config.topic_detector_model = Some(model.to_owned());
        config
    }

    pub fn with_embed_model(self, model: &str) -> (r: Self)
        ensures
            r@ == (MistralConfigView { embed_model: Some(model@), ..self@ }),
    {
        let mut config = self;
        config.embed_model = Some(model.to_owned());
        config
    }
}

} // verus!
