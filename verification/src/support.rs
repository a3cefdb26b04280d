//! Support services around the agent: archived histories, skills, JSON file
//! storage, the agent's configuration and the console.

use vstd::prelude::*;
use crate::json::JsonValue;
use crate::llm::{model_messages, ChatMessage};
use crate::paths::{join_path, path_join};
use crate::sender;
use crate::sort::{sort_strings, sorted_texts, texts};
use crate::text::{decimal, decimal_string};
use crate::data_store::{file_stem_with_ext, stem_with_ext};
use crate::tokens::{total_tokens, try_estimate_messages_tokens};

verus! {

/// Nanoseconds since the Unix epoch by the system clock, through
/// `SystemTime::now().duration_since(UNIX_EPOCH)` and `Duration::as_nanos`;
/// `None` where the clock stands before the epoch. Nothing is promised of
/// the value: it is the time.
#[verifier::external_body]
fn unix_time_nanos() -> (r: Option<u128>) {
    std::time::SystemTime::now().duration_since(std::time::UNIX_EPOCH).ok().map(|d| d.as_nanos())
}

/// Metadata and messages of an archived part of a conversation.
#[derive(Debug)]
pub struct ArchivedHistory {
    /// When the messages were archived (RFC 3339).
    pub compressed_at: String,
    /// Number of messages archived.
    pub message_count: usize,
    /// Estimated tokens of the archived messages.
    pub estimated_tokens: usize,
    /// The archived messages.
    pub messages: Vec<ChatMessage>,
}

impl ArchivedHistory {
    /// The record of archiving `messages` at `compressed_at`; `None` only
    /// where their token estimate does not fit in `usize`.
    pub fn new(compressed_at: String, messages: Vec<ChatMessage>) -> (r: Option<Self>)
        ensures
            match r {
                Some(a) => a.compressed_at == compressed_at && a.message_count == messages@.len()
                    && a.estimated_tokens == total_tokens(model_messages(messages@))
                    && a.messages == messages,
                None => total_tokens(model_messages(messages@)) > usize::MAX,
            },
    {
        match try_estimate_messages_tokens(messages.as_slice()) {
            Some(t) => Some(
                ArchivedHistory {
                    compressed_at,
                    message_count: messages.len(),
                    estimated_tokens: t,
                    messages,
                },
            ),
            None => None,
        }
    }
}

/// `s` ends with `suffix`.
pub open spec fn ends_with(s: Seq<char>, suffix: Seq<char>) -> bool {
    suffix.len() <= s.len() && s.skip(s.len() - suffix.len()) == suffix
}

/// The names that end with `.yaml`.
pub open spec fn yaml_names(names: Seq<Seq<char>>) -> Seq<Seq<char>>
    decreases names.len(),
{
    if names.len() == 0 {
        Seq::empty()
    } else if ends_with(names.last(), ".yaml"@) {
        yaml_names(names.drop_last()).push(names.last())
    } else {
        yaml_names(names.drop_last())
    }
}

/// Does `s` end with `suffix`?
pub fn str_ends_with(s: &str, suffix: &str) -> (r: bool)
    ensures
        r == ends_with(s@, suffix@),
{
    let n = s.unicode_len();
    let k = suffix.unicode_len();
    if k > n {
        return false;
    }
    let tail = s.substring_char(n - k, n);
    assert(tail@ =~= s@.skip(n - k));
    crate::json::str_eq(tail, suffix)
}

/// Keeps archived parts of conversations as YAML files in a directory.
#[derive(Debug)]
pub struct HistoryArchiver {
    archive_dir: String,
}

/// The name of the archive made at `nanos` nanoseconds after the epoch.
pub open spec fn archive_name(nanos: nat) -> Seq<char> {
    decimal(nanos) + ".yaml"@
}

/// Archive names are unique: archives made at different clock readings
/// get different names.
pub proof fn law_archive_names_unique(t1: nat, t2: nat)
    requires
        t1 != t2,
    ensures
        archive_name(t1) != archive_name(t2),
{
    if archive_name(t1) == archive_name(t2) {
        let k = ".yaml"@.len();
        assert(archive_name(t1).take(archive_name(t1).len() - k) =~= decimal(t1));
        assert(archive_name(t2).take(archive_name(t2).len() - k) =~= decimal(t2));
        crate::text::lemma_decimal_injective(t1, t2);
    }
}

impl HistoryArchiver {
    /// An archiver for the directory `archive_dir`.
    pub fn new(archive_dir: String) -> (r: Self)
        ensures
            r.dir() == archive_dir@,
    {
        HistoryArchiver { archive_dir }
    }

    /// The archive directory.
    pub closed spec fn dir(&self) -> Seq<char> {
        self.archive_dir@
    }

    /// The archive directory.
    pub fn archive_dir(&self) -> (r: &str)
        ensures
            r@ == self.dir(),
    {
        self.archive_dir.as_str()
    }

    /// The archive name for the time `nanos` (nanoseconds since the epoch).
    pub fn filename_at(nanos: u128) -> (r: String)
        ensures
            r@ == archive_name(nanos as nat),
    {
        decimal_string(nanos).concat(".yaml")
    }

    /// A new archive name from the system clock (nanoseconds since the
    /// epoch), unique for each reading of the clock (see
    /// [`law_archive_names_unique`]); a clock before the epoch counts as the
    /// epoch.
    pub fn generate_filename(&self) -> (r: String)
        ensures
            exists|nanos: u128| r@ == archive_name(nanos as nat),
    {
        let nanos = match unix_time_nanos() {
            Some(t) => t,
            None => 0,
        };
        Self::filename_at(nanos)
    }

    /// The path of the archive `filename`.
    pub fn archive_path(&self, filename: &str) -> (r: String)
        ensures
            r@ == path_join(self.dir(), filename@),
    {
        join_path(self.archive_dir.as_str(), filename)
    }

    /// The archives among the directory's file names: those ending with
    /// `.yaml`, sorted.
    pub fn archives_of(names: &[String]) -> (r: Vec<String>)
        ensures
            sorted_texts(texts(r@)),
            texts(r@).to_multiset() == yaml_names(texts(names@)).to_multiset(),
    {
        let ghost ns = texts(names@);
        let mut out: Vec<String> = Vec::new();
        let mut i: usize = 0;
        while i < names.len()
            invariant
                ns == texts(names@),
                i <= names@.len(),
                texts(out@) == yaml_names(ns.take(i as int)),
            decreases names@.len() - i,
        {
            assert(ns.take(i as int + 1).drop_last() =~= ns.take(i as int));
            assert(ns.take(i as int + 1).last() == names@[i as int]@);
            let ghost before = out@;
            if str_ends_with(names[i].as_str(), ".yaml") {
                out.push(names[i].clone());
                assert(texts(out@) =~= texts(before).push(names@[i as int]@));
            }
            i = i + 1;
        }
        assert(ns.take(names@.len() as int) =~= ns);
        sort_strings(out)
    }
}

/// A skill: a markdown document of instructions.
#[derive(Debug)]
pub struct SkillDescriptor {
    pub name: String,
    pub description: String,
}

/// The skills kept as `.md` files in a directory.
#[derive(Debug)]
pub struct SkillRegistry {
    skills_dir: String,
}

/// The stems of the names whose extension is `md`.
pub open spec fn md_stems(names: Seq<Seq<char>>) -> Seq<Seq<char>>
    decreases names.len(),
{
    if names.len() == 0 {
        Seq::empty()
    } else {
        match stem_with_ext(names.last(), "md"@) {
            Some(s) => if s.len() > 0 { md_stems(names.drop_last()).push(s) } else { md_stems(names.drop_last()) },
            None => md_stems(names.drop_last()),
        }
    }
}

/// The skill failed.
#[derive(Debug)]
pub enum SkillError {
    NotImplemented,
}

impl SkillError {
    /// The error's message text.
    pub fn to_string(&self) -> (r: String)
        ensures
            r@ == "skill execution not implemented"@,
    {
        String::from_str("skill execution not implemented")
    }
}

impl SkillRegistry {
    /// A registry of the skills in `skills_dir`.
    pub fn new(skills_dir: String) -> (r: Self)
        ensures
            r.dir() == skills_dir@,
    {
        SkillRegistry { skills_dir }
    }

    /// The skills directory.
    pub closed spec fn dir(&self) -> Seq<char> {
        self.skills_dir@
    }

    /// The skills directory.
    pub fn skills_dir(&self) -> (r: &str)
        ensures
            r@ == self.dir(),
    {
        self.skills_dir.as_str()
    }

    /// The file of skill `name`.
    pub fn skill_path(&self, name: &str) -> (r: String)
        ensures
            r@ == path_join(self.dir(), name@ + ".md"@),
    {
        let file = String::from_str(name).concat(".md");
        join_path(self.skills_dir.as_str(), file.as_str())
    }

    /// The skills among the directory's file names: one per `.md` file,
    /// named by its stem, with an empty description, sorted by name.
    pub fn skills_of(names: &[String]) -> (r: Vec<SkillDescriptor>)
        ensures
            sorted_texts(r@.map_values(|d: SkillDescriptor| d.name@)),
            r@.map_values(|d: SkillDescriptor| d.name@).to_multiset() == md_stems(texts(names@)).to_multiset(),
            forall|i: int| 0 <= i < r@.len() ==> (#[trigger] r@[i]).description@.len() == 0,
    {
        let ghost ns = texts(names@);
        let mut stems: Vec<String> = Vec::new();
        let mut i: usize = 0;
        while i < names.len()
            invariant
                ns == texts(names@),
                i <= names@.len(),
                texts(stems@) == md_stems(ns.take(i as int)),
            decreases names@.len() - i,
        {
            assert(ns.take(i as int + 1).drop_last() =~= ns.take(i as int));
            assert(ns.take(i as int + 1).last() == names@[i as int]@);
            let ghost before = stems@;
            if let Some(s) = file_stem_with_ext(names[i].as_str(), "md") {
                if s.unicode_len() > 0 {
                    stems.push(s);
                    assert(texts(stems@) =~= texts(before).push(stems@.last()@));
                }
            }
            i = i + 1;
        }
        assert(ns.take(names@.len() as int) =~= ns);
        let sorted = sort_strings(stems);
        let mut out: Vec<SkillDescriptor> = Vec::new();
        let mut j: usize = 0;
        while j < sorted.len()
            invariant
                j <= sorted@.len(),
                out@.len() == j,
                forall|k: int| 0 <= k < j ==> (#[trigger] out@[k]).name@ == sorted@[k]@
                    && out@[k].description@.len() == 0,
            decreases sorted@.len() - j,
        {
            out.push(SkillDescriptor { name: sorted[j].clone(), description: String::new() });
            j = j + 1;
        }
        assert(out@.map_values(|d: SkillDescriptor| d.name@) =~= texts(sorted@));
        out
    }

    /// Running a skill is not implemented: every call fails.
    pub fn execute(&self, name: &str, input: &JsonValue) -> (r: Result<JsonValue, SkillError>)
        ensures
            r is Err,
    {
        Err(SkillError::NotImplemented)
    }
}

/// Values kept as JSON files under a root directory.
#[derive(Debug)]
pub struct JsonFileStorage {
    root: String,
}

impl JsonFileStorage {
    /// A storage rooted at `root`.
    pub fn new(root: String) -> (r: Self)
        ensures
            r.root_path() == root@,
    {
        JsonFileStorage { root }
    }

    /// The root directory.
    pub closed spec fn root_path(&self) -> Seq<char> {
        self.root@
    }

    /// The root directory.
    pub fn root(&self) -> (r: &str)
        ensures
            r@ == self.root_path(),
    {
        self.root.as_str()
    }

    /// The file of the value at `rel`.
    pub fn file_path(&self, rel: &str) -> (r: String)
        ensures
            r@ == path_join(self.root_path(), rel@),
    {
        join_path(self.root.as_str(), rel)
    }
}

/// The endpoint settings of the agent's configuration file.
#[derive(Debug)]
pub struct OpenAiProviderConfig {
    pub base_url: String,
    pub api_key: String,
}

/// The agent's configuration file.
#[derive(Debug)]
pub struct AgentConfig {
    pub model: String,
    pub openai: Option<OpenAiProviderConfig>,
}

/// What a runtime is built with: the OpenAI settings, if any.
#[derive(Debug)]
pub struct RuntimeSettings {
    pub openai: Option<sender::OpenAiProviderConfig>,
}

/// The runtime settings of a configuration: its OpenAI endpoint, with no
/// model provider id.
pub fn runtime_from_agent_config(cfg: &AgentConfig) -> (r: RuntimeSettings)
    ensures
        match (r.openai, cfg.openai) {
            (Some(a), Some(b)) => a.base_url@ == b.base_url@ && a.api_key@ == b.api_key@
                && a.model_provider_id is None,
            (None, None) => true,
            _ => false,
        },
{
    match &cfg.openai {
        Some(o) => RuntimeSettings {
            openai: Some(
                sender::OpenAiProviderConfig {
                    base_url: o.base_url.clone(),
                    api_key: o.api_key.clone(),
                    model_provider_id: None,
                },
            ),
        },
        None => RuntimeSettings { openai: None },
    }
}

/// Where text is written for the user.
pub trait Console {
    fn print(&mut self, s: &str) -> Result<(), String>;

    fn eprint(&mut self, s: &str) -> Result<(), String>;
}

/// Where the agent runner prints the answers.
pub trait RunnerConsole {
    fn print_line(&mut self, s: &str);
}

/// A runner console that prints lines on a [`Console`].
pub struct RunnerConsoleAdapter<'a, C: Console> {
    console: &'a mut C,
}

impl<'a, C: Console> RunnerConsoleAdapter<'a, C> {
    /// The console the adapter prints on.
    pub closed spec fn console_value(&self) -> C {
        *self.console
    }

    /// An adapter printing on `console`.
    pub fn new(console: &'a mut C) -> (r: Self)
        ensures
            r.console_value() == *old(console),
    {
        RunnerConsoleAdapter { console }
    }
}

impl<'a, C: Console> RunnerConsole for RunnerConsoleAdapter<'a, C> {
    fn print_line(&mut self, s: &str) {
        let _ = self.console.print(s);
        let _ = self.console.print("\n");
    }
}

} // verus!
