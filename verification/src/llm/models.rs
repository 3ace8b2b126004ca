//! Names of OpenAI models.
use vstd::prelude::*;

verus! {

/// Helper enum for OpenAI model names.
#[derive(PartialEq, Eq, Structural, Clone, Copy, Debug)]
pub enum OpenAIModel {
    /// `"gpt-3.5-turbo"`
    Gpt35,
    /// `"gpt-4"`
    Gpt4,
    /// `"gpt-4-turbo-preview"`
    Gpt4Turbo,
    /// `"gpt-4o"`
    Gpt4o,
    /// `"gpt-4o-mini"`
    Gpt4oMini,
}

/// The name of a model as the API knows it.
pub open spec fn model_name(m: OpenAIModel) -> Seq<char> {
    match m {
        OpenAIModel::Gpt35 => "gpt-3.5-turbo"@,
        OpenAIModel::Gpt4 => "gpt-4"@,
        OpenAIModel::Gpt4Turbo => "gpt-4-turbo-preview"@,
        OpenAIModel::Gpt4o => "gpt-4o"@,
        OpenAIModel::Gpt4oMini => "gpt-4o-mini"@,
    }
}

impl OpenAIModel {
    /// The name of the model as the API knows it.
    pub fn as_str(&self) -> (r: &'static str)
        ensures
            r@ == model_name(*self),
    {
        match self {
            OpenAIModel::Gpt35 => "gpt-3.5-turbo",
            OpenAIModel::Gpt4 => "gpt-4",
            OpenAIModel::Gpt4Turbo => "gpt-4-turbo-preview",
            OpenAIModel::Gpt4o => "gpt-4o",
            OpenAIModel::Gpt4oMini => "gpt-4o-mini",
        }
    }

    /// The name of the model as the API knows it, as an owned string.
    pub fn to_string(&self) -> (r: String)
        ensures
            r@ == model_name(*self),
    {
        self.as_str().to_owned()
    }
}

impl From<OpenAIModel> for String {
    /// The name of the model as the API knows it.
    fn from(m: OpenAIModel) -> (r: String)
        ensures
            r@ == model_name(m),
    {
        m.to_string()
    }
}

impl vstd::std_specs::convert::FromSpecImpl<OpenAIModel> for String {
    /// A name is told by its characters, which [`model_name`] gives; no
    /// `String` value is singled out.
    open spec fn obeys_from_spec() -> bool {
        false
    }

    open spec fn from_spec(m: OpenAIModel) -> String {
        arbitrary()
    }
}

/// Different models have different names.
pub proof fn lemma_model_names_distinct(a: OpenAIModel, b: OpenAIModel)
    requires
        a != b,
    ensures
        model_name(a) != model_name(b),
{
    reveal_strlit("gpt-3.5-turbo");
    reveal_strlit("gpt-4");
    reveal_strlit("gpt-4-turbo-preview");
    reveal_strlit("gpt-4o");
    reveal_strlit("gpt-4o-mini");
    let (x, y) = (model_name(a), model_name(b));
    if x.len() == y.len() {
        if x == y {
            assert(x[4] == y[4]);
            assert(x[5] == y[5]);
        }
    }
}

} // verus!
