//! Project records: the per-project configuration bundle that the registry
//! stores, together with its defaults.
use vstd::prelude::*;

verus! {

/// One ordered instruction block, mapped to one heading of the generated
/// article.
pub struct SectionDefinitionData {
    pub instructions: String,
}

impl View for SectionDefinitionData {
    type V = Seq<char>;

    open spec fn view(&self) -> Seq<char> {
        self.instructions@
    }
}

impl Clone for SectionDefinitionData {
    fn clone(&self) -> (r: Self)
        ensures
            r == *self,
    {
        SectionDefinitionData { instructions: self.instructions.clone() }
    }
}

/// The mathematical value of a project record.
#[verifier::ext_equal]
pub struct ProjectSettingsView {
    pub wordpress_url: Seq<char>,
    pub wordpress_user: Seq<char>,
    pub wordpress_pass: Seq<char>,
    pub tool_name: Seq<char>,
    pub article_goal_prompt: Seq<char>,
    pub example_url: Seq<char>,
    pub sections: Seq<Seq<char>>,
    pub text_generation_model: Seq<char>,
    pub target_word_count: int,
}

/// A project's configuration: CMS endpoint and credentials, the generation
/// goal, the ordered section instructions, and generation parameters.
pub struct ProjectSettings {
    pub wordpress_url: String,
    pub wordpress_user: String,
    pub wordpress_pass: String,
    pub tool_name: String,
    pub article_goal_prompt: String,
    pub example_url: String,
    pub sections: Vec<SectionDefinitionData>,
    pub text_generation_model: String,
    pub target_word_count: u32,
}

impl View for ProjectSettings {
    type V = ProjectSettingsView;

    open spec fn view(&self) -> ProjectSettingsView {
        ProjectSettingsView {
            wordpress_url: self.wordpress_url@,
            wordpress_user: self.wordpress_user@,
            wordpress_pass: self.wordpress_pass@,
            tool_name: self.tool_name@,
            article_goal_prompt: self.article_goal_prompt@,
            example_url: self.example_url@,
            sections: self.sections@.map_values(|s: SectionDefinitionData| s@),
            text_generation_model: self.text_generation_model@,
            target_word_count: self.target_word_count as int,
        }
    }
}

impl Clone for ProjectSettings {
    fn clone(&self) -> (r: Self)
        ensures
            r@ == self@,
    {
        let sections = self.sections.clone();
        proof {
            assert forall|i: int| 0 <= i < self.sections@.len() implies sections@[i]
                == self.sections@[i] by {
                assert(cloned::<SectionDefinitionData>(self.sections@[i], sections@[i]));
            }
            assert(sections@ =~= self.sections@);
        }
        let r = ProjectSettings {
            wordpress_url: self.wordpress_url.clone(),
            wordpress_user: self.wordpress_user.clone(),
            wordpress_pass: self.wordpress_pass.clone(),
            tool_name: self.tool_name.clone(),
            article_goal_prompt: self.article_goal_prompt.clone(),
            example_url: self.example_url.clone(),
            sections,
            text_generation_model: self.text_generation_model.clone(),
            target_word_count: self.target_word_count,
        };
        proof {
            assert(r@ =~= self@);
        }
        r
    }
}

/// Default value for an unset text field of a project record.
pub fn default_string() -> (r: String)
    ensures
        r@ == Seq::<char>::empty(),
{
    String::new()
}

/// Default section list of a new project: empty.
pub fn default_sections() -> (r: Vec<SectionDefinitionData>)
    ensures
        r@.len() == 0,
{
    Vec::new()
}

/// Default text-generation model identifier of a new project.
pub fn default_text_model() -> (r: String)
    ensures
        r@ == "gpt-4o"@,
{
    "gpt-4o".to_owned()
}

/// Default target word count of a new project.
pub fn default_word_count() -> (r: u32)
    ensures
        r == 1000,
{
    1000
}

/// The record a freshly created project holds: every field empty or at its
/// default, except the tool name, which is seeded with the project name.
pub open spec fn default_settings_view(name: Seq<char>) -> ProjectSettingsView {
    ProjectSettingsView {
        wordpress_url: Seq::<char>::empty(),
        wordpress_user: Seq::<char>::empty(),
        wordpress_pass: Seq::<char>::empty(),
        tool_name: name,
        article_goal_prompt: Seq::<char>::empty(),
        example_url: Seq::<char>::empty(),
        sections: Seq::<Seq<char>>::empty(),
        text_generation_model: "gpt-4o"@,
        target_word_count: 1000,
    }
}

/// Builds the default record for a new project named `name`.
pub fn default_project_settings(name: &str) -> (r: ProjectSettings)
    ensures
        r@ == default_settings_view(name@),
{
    let r = ProjectSettings {
        wordpress_url: default_string(),
        wordpress_user: default_string(),
        wordpress_pass: default_string(),
        tool_name: name.to_owned(),
        article_goal_prompt: default_string(),
        example_url: default_string(),
        sections: default_sections(),
        text_generation_model: default_text_model(),
        target_word_count: default_word_count(),
    };
    proof {
        assert(r.sections@.map_values(|s: SectionDefinitionData| s@) =~= Seq::<Seq<char>>::empty());
        assert(r@ =~= default_settings_view(name@));
    }
    r
}

} // verus!
