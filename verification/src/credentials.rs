//! Credentials: keys under the names of environment variables, looked up layer by layer.
//!
//! The process environment comes first, then the stored document, then the `.env` file of the
//! project and that of the user. An empty value counts as none.
use vstd::prelude::*;
use vstd::string::*;

use crate::text;
use crate::text::{
    ascii_alnum, ascii_alpha, cat2, cat3, chars_of, decimal_text, find_char, lines_of, slice_text,
    str_eq, strip_prefix, trim,
};

verus! {

/// The version of the stored document.
pub const DOCUMENT_VERSION: u32 = 1;

/// Failures of the credential store.
#[derive(Debug, PartialEq)]
pub enum CredentialError {
    InvalidRefName(String),
    InvalidValue(String),
    Shadowed(String),
    Version(u32),
    Parse(String),
    Io(String),
}

pub enum ErrorView {
    InvalidRefName(Seq<char>),
    InvalidValue(Seq<char>),
    Shadowed(Seq<char>),
    Version(u32),
    Parse(Seq<char>),
    Io(Seq<char>),
}

impl View for CredentialError {
    type V = ErrorView;

    open spec fn view(&self) -> ErrorView {
        match *self {
            CredentialError::InvalidRefName(name) => ErrorView::InvalidRefName(name@),
            CredentialError::InvalidValue(why) => ErrorView::InvalidValue(why@),
            CredentialError::Shadowed(name) => ErrorView::Shadowed(name@),
            CredentialError::Version(version) => ErrorView::Version(version),
            CredentialError::Parse(why) => ErrorView::Parse(why@),
            CredentialError::Io(why) => ErrorView::Io(why@),
        }
    }
}

/// The code of a failure on the wire.
pub open spec fn error_code(error: ErrorView) -> Seq<char> {
    match error {
        ErrorView::InvalidRefName(_) => "credential/invalid-name"@,
        ErrorView::InvalidValue(_) => "credential/invalid-value"@,
        ErrorView::Shadowed(_) => "credential/shadowed"@,
        ErrorView::Version(_) => "credential/version"@,
        ErrorView::Parse(_) => "credential/parse"@,
        ErrorView::Io(_) => "credential/io"@,
    }
}

/// A failure in words.
pub open spec fn error_text(error: ErrorView) -> Seq<char> {
    match error {
        ErrorView::InvalidRefName(name) => "invalid credential reference name: "@ + name,
        ErrorView::InvalidValue(why) => "credential value rejected: "@ + why,
        ErrorView::Shadowed(name) => "credential reference "@ + name
            + " is shadowed by the process environment; unset it in the shell that starts the server instead"@,
        ErrorView::Version(version) => "unsupported credentials document version: "@
            + text::decimal(version as nat),
        ErrorView::Parse(why) => "credentials document parse error: "@ + why,
        ErrorView::Io(why) => "credentials I/O: "@ + why,
    }
}

impl CredentialError {
    /// The code of this failure on the wire.
    pub fn code(&self) -> (code: &'static str)
        ensures
            code@ == error_code(self@),
    {
        match self {
            CredentialError::InvalidRefName(_) => "credential/invalid-name",
            CredentialError::InvalidValue(_) => "credential/invalid-value",
            CredentialError::Shadowed(_) => "credential/shadowed",
            CredentialError::Version(_) => "credential/version",
            CredentialError::Parse(_) => "credential/parse",
            CredentialError::Io(_) => "credential/io",
        }
    }

    /// This failure in words.
    pub fn to_text(&self) -> (text: String)
        ensures
            text@ == error_text(self@),
    {
        match self {
            CredentialError::InvalidRefName(name) => cat2(
                "invalid credential reference name: ",
                name.as_str(),
            ),
            CredentialError::InvalidValue(why) => cat2("credential value rejected: ", why.as_str()),
            CredentialError::Shadowed(name) => cat3(
                "credential reference ",
                name.as_str(),
                " is shadowed by the process environment; unset it in the shell that starts the server instead",
            ),
            CredentialError::Version(version) => cat2(
                "unsupported credentials document version: ",
                decimal_text(*version as u64).as_str(),
            ),
            CredentialError::Parse(why) => cat2(
                "credentials document parse error: ",
                why.as_str(),
            ),
            CredentialError::Io(why) => cat2("credentials I/O: ", why.as_str()),
        }
    }
}

/// A key and the layer that it comes from.
#[derive(Debug, PartialEq)]
pub struct ResolvedCredential {
    pub value: String,
    pub source: &'static str,
}

pub struct ResolvedView {
    pub value: Seq<char>,
    pub source: Seq<char>,
}

impl View for ResolvedCredential {
    type V = ResolvedView;

    open spec fn view(&self) -> ResolvedView {
        ResolvedView { value: self.value@, source: self.source@ }
    }
}

/// What is told of a reference; never the key itself.
#[derive(Debug, PartialEq)]
pub struct CredentialInfo {
    pub configured: bool,
    pub source: Option<&'static str>,
    /// Whether a key that is stored counts: not while the process environment has one.
    pub writable: bool,
}

/// That a stored key was written or removed.
#[derive(Debug, PartialEq)]
pub enum CredentialEvent {
    ReferenceUpdated { reference: String },
}

/// A name for an environment variable: a letter or an underscore, and then letters, digits and
/// underscores.
pub open spec fn is_ref_name(name: Seq<char>) -> bool {
    &&& name.len() > 0
    &&& text::is_alpha(name[0]) || name[0] == '_'
    &&& forall|i: int| 0 <= i < name.len() ==> text::is_alnum(#[trigger] name[i]) || name[i] == '_'
}

/// Refuses what is no name for an environment variable.
pub fn validate_ref_name(reference: &str) -> (valid: Result<(), CredentialError>)
    ensures
        match valid {
            Ok(_) => is_ref_name(reference@),
            Err(error) => !is_ref_name(reference@) && error@ == ErrorView::InvalidRefName(
                reference@,
            ),
        },
{
    let chars = chars_of(reference);
    if chars.len() == 0 || !(ascii_alpha(chars[0]) || chars[0] == '_') {
        return Err(CredentialError::InvalidRefName(reference.to_owned()));
    }
    let mut i: usize = 0;
    while i < chars.len()
        invariant
            i <= chars@.len(),
            chars@ == reference@,
            forall|j: int|
                0 <= j < i ==> text::is_alnum(#[trigger] reference@[j]) || reference@[j] == '_',
        decreases chars@.len() - i,
    {
        if !(ascii_alnum(chars[i]) || chars[i] == '_') {
            assert(!(text::is_alnum(reference@[i as int]) || reference@[i as int] == '_'));
            return Err(CredentialError::InvalidRefName(reference.to_owned()));
        }
        i += 1;
    }
    Ok(())
}

/// The stored document: keys under the names of environment variables.
#[derive(Debug)]
pub struct CredentialStore {
    refs: Vec<(String, String)>,
}

/// The map that a list of entries stands for; the later of two under one name counts.
pub open spec fn stored(refs: Seq<(String, String)>) -> Map<Seq<char>, Seq<char>>
    decreases refs.len(),
{
    if refs.len() == 0 {
        Map::empty()
    } else {
        stored(refs.drop_last()).insert(refs.last().0@, refs.last().1@)
    }
}

impl View for CredentialStore {
    type V = Map<Seq<char>, Seq<char>>;

    closed spec fn view(&self) -> Map<Seq<char>, Seq<char>> {
        stored(self.refs@)
    }
}

proof fn lemma_stored_push(refs: Seq<(String, String)>, entry: (String, String))
    ensures
        stored(refs.push(entry)) == stored(refs).insert(entry.0@, entry.1@),
{
    assert(refs.push(entry).drop_last() =~= refs);
}

/// What is wrong with an entry of the document, if anything is.
pub open spec fn entry_error(name: Seq<char>, value: Seq<char>) -> Option<ErrorView> {
    if !is_ref_name(name) {
        Some(ErrorView::InvalidRefName(name))
    } else if value.len() == 0 {
        Some(
            ErrorView::Parse(
                "credential '"@ + name + "' has an empty value; empty means absent"@,
            ),
        )
    } else {
        None
    }
}

/// What is wrong with a list of entries, if anything is: the first fault counts.
pub open spec fn entries_error(refs: Seq<(String, String)>) -> Option<ErrorView>
    decreases refs.len(),
{
    if refs.len() == 0 {
        None
    } else {
        match entries_error(refs.drop_last()) {
            Some(error) => Some(error),
            None => entry_error(refs.last().0@, refs.last().1@),
        }
    }
}

/// What is wrong with a document, if anything is.
pub open spec fn document_error(version: u32, refs: Seq<(String, String)>) -> Option<ErrorView> {
    if version != DOCUMENT_VERSION {
        Some(ErrorView::Version(version))
    } else {
        entries_error(refs)
    }
}

impl Default for CredentialStore {
    fn default() -> (doc: Self)
        ensures
            doc@ == Map::<Seq<char>, Seq<char>>::empty(),
    {
        CredentialStore { refs: Vec::new() }
    }
}

/// Whether a document holds nothing, and so no keys.
pub fn is_blank_document(contents: &str) -> (yes: bool)
    ensures
        yes == (text::trimmed(contents@).len() == 0),
{
    trim(contents).as_str().is_empty()
}

impl CredentialStore {
    /// The document that was read, if it is sound: of the right version, and each entry with a name
    /// and a key.
    pub fn check(version: u32, refs: Vec<(String, String)>) -> (doc: Result<Self, CredentialError>)
        ensures
            match doc {
                Ok(doc) => document_error(version, refs@) is None && doc@ == stored(refs@),
                Err(error) => document_error(version, refs@) == Some(error@),
            },
    {
        if version != DOCUMENT_VERSION {
            return Err(CredentialError::Version(version));
        }
        let mut i: usize = 0;
        while i < refs.len()
            invariant
                i <= refs@.len(),
                version == DOCUMENT_VERSION,
                entries_error(refs@.take(i as int)) is None,
            decreases refs@.len() - i,
        {
            assert(refs@.take(i + 1).drop_last() =~= refs@.take(i as int));
            let name = refs[i].0.as_str();
            if let Err(error) = validate_ref_name(name) {
                proof {
                    lemma_first_error(refs@, i as int);
                }
                return Err(error);
            }
            if refs[i].1.as_str().is_empty() {
                proof {
                    lemma_first_error(refs@, i as int);
                }
                return Err(
                    CredentialError::Parse(
                        cat3(
                            "credential '",
                            name,
                            "' has an empty value; empty means absent",
                        ),
                    ),
                );
            }
            i += 1;
        }
        assert(refs@.take(refs@.len() as int) =~= refs@);
        Ok(CredentialStore { refs })
    }

    /// The stored key under a name.
    pub fn get(&self, reference: &str) -> (value: Option<&str>)
        ensures
            match value {
                Some(value) => self@.contains_key(reference@) && self@[reference@] == value@,
                None => !self@.contains_key(reference@),
            },
    {
        let mut i: usize = self.refs.len();
        assert(self.refs@.take(i as int) =~= self.refs@);
        while i > 0
            invariant
                i <= self.refs@.len(),
                self@.contains_key(reference@) == stored(self.refs@.take(i as int)).contains_key(
                    reference@,
                ),
                self@.contains_key(reference@) ==> self@[reference@] == stored(
                    self.refs@.take(i as int),
                )[reference@],
            decreases i,
        {
            assert(self.refs@.take(i as int).drop_last() =~= self.refs@.take(i - 1));
            i -= 1;
            if str_eq(self.refs[i].0.as_str(), reference) {
                return Some(self.refs[i].1.as_str());
            }
        }
        None
    }

    fn without(&self, reference: &str) -> (refs: Vec<(String, String)>)
        ensures
            stored(refs@) == self@.remove(reference@),
    {
        let mut refs: Vec<(String, String)> = Vec::new();
        let mut i: usize = 0;
        assert(stored(refs@) =~= stored(self.refs@.take(0)).remove(reference@));
        while i < self.refs.len()
            invariant
                i <= self.refs@.len(),
                stored(refs@) == stored(self.refs@.take(i as int)).remove(reference@),
            decreases self.refs@.len() - i,
        {
            let ghost before = stored(self.refs@.take(i as int));
            let ghost (name, value) = (self.refs@[i as int].0@, self.refs@[i as int].1@);
            assert(self.refs@.take(i + 1).drop_last() =~= self.refs@.take(i as int));
            if !str_eq(self.refs[i].0.as_str(), reference) {
                let entry = (self.refs[i].0.clone(), self.refs[i].1.clone());
                proof {
                    lemma_stored_push(refs@, entry);
                }
                refs.push(entry);
                assert(before.remove(reference@).insert(name, value) =~= before.insert(
                    name,
                    value,
                ).remove(reference@));
            } else {
                assert(before.remove(reference@) =~= before.insert(name, value).remove(reference@));
            }
            i += 1;
        }
        assert(self.refs@.take(self.refs@.len() as int) =~= self.refs@);
        refs
    }

    fn insert(&mut self, reference: &str, value: String)
        ensures
            final(self)@ == old(self)@.insert(reference@, value@),
    {
        let ghost before = self@;
        let mut refs = self.without(reference);
        let entry = (reference.to_owned(), value);
        proof {
            lemma_stored_push(refs@, entry);
        }
        refs.push(entry);
        assert(before.remove(reference@).insert(reference@, value@) =~= before.insert(
            reference@,
            value@,
        ));
        self.refs = refs;
    }

    /// The entries, for the writer of the document.
    pub fn entries(&self) -> (refs: &Vec<(String, String)>)
        ensures
            stored(refs@) == self@,
    {
        &self.refs
    }
}

proof fn lemma_first_error(refs: Seq<(String, String)>, at: int)
    requires
        0 <= at < refs.len(),
        entries_error(refs.take(at)) is None,
        entry_error(refs[at].0@, refs[at].1@) is Some,
    ensures
        entries_error(refs) == entry_error(refs[at].0@, refs[at].1@),
    decreases refs.len(),
{
    if at == refs.len() - 1 {
        assert(refs.drop_last() =~= refs.take(at));
    } else {
        assert(refs.drop_last().take(at) =~= refs.take(at));
        lemma_first_error(refs.drop_last(), at);
    }
}

/// A `.env` file: its text, or `None` where there is none, or why it cannot be read.
pub type DotEnv = Result<Option<String>, String>;

/// A value without the quotes around it.
pub open spec fn unquoted(value: Seq<char>) -> Seq<char> {
    if value.len() >= 2 && (value[0] == '"' && value.last() == '"' || value[0] == '\''
        && value.last() == '\'') {
        value.subrange(1, value.len() - 1)
    } else {
        value
    }
}

/// The name on the left of an entry of a `.env` file.
pub open spec fn entry_name(left: Seq<char>) -> Seq<char> {
    match text::after_prefix(text::trimmed(left), "export "@) {
        Some(name) => name,
        None => text::trimmed(left),
    }
}

/// The name and the value of a line of a `.env` file; `None` for a blank line, a comment, and a
/// line without an equals sign.
pub open spec fn dotenv_entry(line: Seq<char>) -> Option<(Seq<char>, Seq<char>)> {
    let line = text::trimmed(line);
    if line.len() == 0 || line[0] == '#' {
        None
    } else {
        match text::char_from(line, '=', 0) {
            Some(at) => Some(
                (entry_name(line.take(at)), unquoted(text::trimmed(line.skip(at + 1)))),
            ),
            None => None,
        }
    }
}

/// The first value under a name in the lines of a `.env` file.
pub open spec fn dotenv_value(lines: Seq<Seq<char>>, key: Seq<char>, from: int) -> Option<Seq<char>>
    decreases lines.len() - from,
{
    if from < 0 || from >= lines.len() {
        None
    } else {
        match dotenv_entry(lines[from]) {
            Some((name, value)) => if name == key {
                Some(value)
            } else {
                dotenv_value(lines, key, from + 1)
            },
            None => dotenv_value(lines, key, from + 1),
        }
    }
}

fn strip_quotes(value: &str) -> (inner: String)
    ensures
        inner@ == unquoted(value@),
{
    let chars = chars_of(value);
    let total: usize = chars.len();
    if total >= 2 {
        let (first, last) = (chars[0], chars[total - 1]);
        if (first == '"' && last == '"') || (first == '\'' && last == '\'') {
            return slice_text(&chars, 1, total - 1);
        }
    }
    value.to_owned()
}

fn read_entry(line: &str) -> (entry: Option<(String, String)>)
    ensures
        dotenv_entry(line@) == (match entry {
            Some((name, value)) => Some((name@, value@)),
            None => None::<(Seq<char>, Seq<char>)>,
        }),
{
    let trimmed = trim(line);
    let chars = chars_of(trimmed.as_str());
    let total: usize = chars.len();
    if total == 0 || chars[0] == '#' {
        return None;
    }
    match find_char(&chars, '=', 0) {
        Some(at) => {
            proof {
                text::lemma_char_from(chars@, '=', 0);
            }
            let left = trim(slice_text(&chars, 0, at).as_str());
            let right = trim(slice_text(&chars, at + 1, total).as_str());
            assert(chars@.subrange(0, at as int) =~= chars@.take(at as int));
            assert(chars@.subrange(at + 1, total as int) =~= chars@.skip(at + 1));
            let name = match strip_prefix(left.as_str(), "export ") {
                Some(name) => name,
                None => left,
            };
            Some((name, strip_quotes(right.as_str())))
        },
        None => None,
    }
}

/// The value under a name in the text of a `.env` file: lines `KEY=value`, with comments, an
/// optional `export` and optional quotes.
pub fn read_dotenv_key(contents: &str, key: &str) -> (value: Option<String>)
    ensures
        text::opt_view(value) == dotenv_value(text::lines(contents@), key@, 0),
{
    let lines = lines_of(contents);
    let ghost all = text::views(lines@);
    let mut i: usize = 0;
    while i < lines.len()
        invariant
            i <= lines@.len(),
            all == text::views(lines@),
            all == text::lines(contents@),
            dotenv_value(all, key@, 0) == dotenv_value(all, key@, i as int),
        decreases lines@.len() - i,
    {
        if let Some((name, value)) = read_entry(lines[i].as_str()) {
            if str_eq(name.as_str(), key) {
                return Some(value);
            }
        }
        i += 1;
    }
    None
}

/// What a `.env` file has under a name; an empty value counts as none.
pub open spec fn dotenv_layer(file: DotEnv, key: Seq<char>) -> Result<Option<Seq<char>>, ErrorView> {
    match file {
        Ok(Some(contents)) => match dotenv_value(text::lines(contents@), key, 0) {
            Some(value) => if value.len() > 0 {
                Ok(Some(value))
            } else {
                Ok(None)
            },
            None => Ok(None),
        },
        Ok(None) => Ok(None),
        Err(why) => Err(ErrorView::Io(why@)),
    }
}

fn read_layer(file: &DotEnv, key: &str) -> (value: Result<Option<String>, CredentialError>)
    ensures
        match value {
            Ok(value) => dotenv_layer(*file, key@) == Ok::<_, ErrorView>(text::opt_view(value)),
            Err(error) => dotenv_layer(*file, key@) == Err::<Option<Seq<char>>, _>(error@),
        },
{
    match file {
        Ok(Some(contents)) => match read_dotenv_key(contents.as_str(), key) {
            Some(value) => if value.as_str().is_empty() {
                Ok(None)
            } else {
                Ok(Some(value))
            },
            None => Ok(None),
        },
        Ok(None) => Ok(None),
        Err(why) => Err(CredentialError::Io(why.clone())),
    }
}

/// Whether the process environment has a key.
pub open spec fn shadows(env: Option<Seq<char>>) -> bool {
    env matches Some(value) && value.len() > 0
}

/// The key under a name: from the process environment, the document, the project's `.env` file or
/// the user's. A file that cannot be read fails the search once it is reached.
pub open spec fn resolution(
    doc: Map<Seq<char>, Seq<char>>,
    reference: Seq<char>,
    env: Option<Seq<char>>,
    project: DotEnv,
    user: DotEnv,
) -> Result<Option<ResolvedView>, ErrorView> {
    if !is_ref_name(reference) {
        Err(ErrorView::InvalidRefName(reference))
    } else if shadows(env) {
        Ok(Some(ResolvedView { value: env->0, source: "env"@ }))
    } else if doc.contains_key(reference) && doc[reference].len() > 0 {
        Ok(Some(ResolvedView { value: doc[reference], source: "file"@ }))
    } else {
        match dotenv_layer(project, reference) {
            Ok(Some(value)) => Ok(Some(ResolvedView { value, source: "project-env"@ })),
            Ok(None) => match dotenv_layer(user, reference) {
                Ok(Some(value)) => Ok(Some(ResolvedView { value, source: "user-env"@ })),
                Ok(None) => Ok(None),
                Err(error) => Err(error),
            },
            Err(error) => Err(error),
        }
    }
}

pub open spec fn resolved_view(found: Option<ResolvedCredential>) -> Option<ResolvedView> {
    match found {
        Some(found) => Some(found@),
        None => None,
    }
}

/// Why a key is not stored, if it is not.
pub open spec fn value_error(value: Seq<char>) -> Option<ErrorView> {
    if value.len() == 0 {
        Some(ErrorView::InvalidValue("an API key must not be empty"@))
    } else if exists|i: int| 0 <= i < value.len() && !(0x21 <= #[trigger] value[i] as u32 <= 0x7E) {
        Some(ErrorView::InvalidValue("an API key must be printable ASCII without spaces"@))
    } else {
        None
    }
}

fn check_value(value: &str) -> (valid: Result<(), CredentialError>)
    ensures
        match valid {
            Ok(_) => value_error(value@) is None,
            Err(error) => value_error(value@) == Some(error@),
        },
{
    if value.is_empty() {
        return Err(CredentialError::InvalidValue("an API key must not be empty".to_owned()));
    }
    let chars = chars_of(value);
    let mut i: usize = 0;
    while i < chars.len()
        invariant
            i <= chars@.len(),
            chars@ == value@,
            value@.len() > 0,
            forall|j: int| 0 <= j < i ==> 0x21 <= #[trigger] value@[j] as u32 <= 0x7E,
        decreases chars@.len() - i,
    {
        let code = chars[i] as u32;
        if code < 0x21 || code > 0x7E {
            assert(!(0x21 <= value@[i as int] as u32 <= 0x7E));
            return Err(
                CredentialError::InvalidValue(
                    "an API key must be printable ASCII without spaces".to_owned(),
                ),
            );
        }
        i += 1;
    }
    Ok(())
}

/// Why a stored key is not written, if it is not.
pub open spec fn set_error(reference: Seq<char>, value: Seq<char>, env: Option<Seq<char>>) -> Option<
    ErrorView,
> {
    if !is_ref_name(reference) {
        Some(ErrorView::InvalidRefName(reference))
    } else if value_error(text::trimmed(value)) is Some {
        value_error(text::trimmed(value))
    } else if shadows(env) {
        Some(ErrorView::Shadowed(reference))
    } else {
        None
    }
}

/// Why a stored key is not removed, if it is not.
pub open spec fn unset_error(reference: Seq<char>, env: Option<Seq<char>>) -> Option<ErrorView> {
    if !is_ref_name(reference) {
        Some(ErrorView::InvalidRefName(reference))
    } else if shadows(env) {
        Some(ErrorView::Shadowed(reference))
    } else {
        None
    }
}

fn env_has_key(env: &Option<String>) -> (yes: bool)
    ensures
        yes == shadows(text::opt_view(*env)),
{
    match env {
        Some(value) => !value.as_str().is_empty(),
        None => false,
    }
}

impl CredentialStore {
    /// The key under a name. `env` is what the process environment has under it.
    pub fn resolve(
        &self,
        reference: &str,
        env: &Option<String>,
        project: &DotEnv,
        user: &DotEnv,
    ) -> (found: Result<Option<ResolvedCredential>, CredentialError>)
        ensures
            match found {
                Ok(found) => resolution(
                    self@,
                    reference@,
                    text::opt_view(*env),
                    *project,
                    *user,
                ) == Ok::<_, ErrorView>(resolved_view(found)),
                Err(error) => resolution(
                    self@,
                    reference@,
                    text::opt_view(*env),
                    *project,
                    *user,
                ) == Err::<Option<ResolvedView>, _>(error@),
            },
    {
        validate_ref_name(reference)?;
        if let Some(value) = env {
            if !value.as_str().is_empty() {
                return Ok(Some(ResolvedCredential { value: value.clone(), source: "env" }));
            }
        }
        if let Some(value) = self.get(reference) {
            if !value.is_empty() {
                return Ok(Some(ResolvedCredential { value: value.to_owned(), source: "file" }));
            }
        }
        match read_layer(project, reference) {
            Ok(Some(value)) => Ok(Some(ResolvedCredential { value, source: "project-env" })),
            Ok(None) => match read_layer(user, reference) {
                Ok(Some(value)) => Ok(Some(ResolvedCredential { value, source: "user-env" })),
                Ok(None) => Ok(None),
                Err(error) => Err(error),
            },
            Err(error) => Err(error),
        }
    }

    /// What is told of a reference.
    pub fn describe(
        &self,
        reference: &str,
        env: &Option<String>,
        project: &DotEnv,
        user: &DotEnv,
    ) -> (info: Result<CredentialInfo, CredentialError>)
        ensures
            match resolution(self@, reference@, text::opt_view(*env), *project, *user) {
                Ok(Some(found)) => info matches Ok(info) && info.configured && text::opt_str_view(
                    info.source,
                ) == Some(found.source) && info.writable == (found.source != "env"@),
                Ok(None) => info matches Ok(info) && !info.configured && info.source is None
                    && info.writable,
                Err(error) => info matches Err(failure) && failure@ == error,
            },
    {
        match self.resolve(reference, env, project, user) {
            Ok(Some(found)) => {
                let writable = !str_eq(found.source, "env");
                Ok(CredentialInfo { configured: true, source: Some(found.source), writable })
            },
            Ok(None) => Ok(CredentialInfo { configured: false, source: None, writable: true }),
            Err(error) => Err(error),
        }
    }

    /// Stores a key under a name, without the white space around it.
    pub fn set(&mut self, reference: &str, value: &str, env: &Option<String>) -> (done: Result<
        (),
        CredentialError,
    >)
        ensures
            match done {
                Ok(_) => set_error(reference@, value@, text::opt_view(*env)) is None && final(self)@
                    == old(self)@.insert(reference@, text::trimmed(value@)),
                Err(error) => set_error(reference@, value@, text::opt_view(*env)) == Some(error@)
                    && final(self)@ == old(self)@,
            },
    {
        if let Err(error) = validate_ref_name(reference) {
            return Err(error);
        }
        let value = trim(value);
        if let Err(error) = check_value(value.as_str()) {
            return Err(error);
        }
        if env_has_key(env) {
            return Err(CredentialError::Shadowed(reference.to_owned()));
        }
        self.insert(reference, value);
        Ok(())
    }

    /// Removes a stored key, and says whether there was one.
    pub fn unset(&mut self, reference: &str, env: &Option<String>) -> (removed: Result<
        bool,
        CredentialError,
    >)
        ensures
            match removed {
                Ok(removed) => unset_error(reference@, text::opt_view(*env)) is None && removed
                    == old(self)@.contains_key(reference@) && final(self)@ == old(self)@.remove(
                    reference@,
                ),
                Err(error) => unset_error(reference@, text::opt_view(*env)) == Some(error@)
                    && final(self)@ == old(self)@,
            },
    {
        if let Err(error) = validate_ref_name(reference) {
            return Err(error);
        }
        if env_has_key(env) {
            return Err(CredentialError::Shadowed(reference.to_owned()));
        }
        let removed = self.get(reference).is_some();
        if removed {
            self.refs = self.without(reference);
        } else {
            assert(self@.remove(reference@) =~= self@);
        }
        Ok(removed)
    }
}

/// A key that was stored is found again, whatever the `.env` files hold, as long as the process
/// environment has none.
pub proof fn stored_key_is_found(
    doc: Map<Seq<char>, Seq<char>>,
    reference: Seq<char>,
    value: Seq<char>,
    env: Option<Seq<char>>,
    project: DotEnv,
    user: DotEnv,
)
    requires
        set_error(reference, value, env) is None,
    ensures
        resolution(doc.insert(reference, text::trimmed(value)), reference, env, project, user) == Ok::<
            _,
            ErrorView,
        >(Some(ResolvedView { value: text::trimmed(value), source: "file"@ })),
{
}

/// To store a key under one name changes nothing under another.
pub proof fn other_keys_are_kept(
    doc: Map<Seq<char>, Seq<char>>,
    reference: Seq<char>,
    value: Seq<char>,
    other: Seq<char>,
    env: Option<Seq<char>>,
    project: DotEnv,
    user: DotEnv,
)
    requires
        other != reference,
    ensures
        resolution(doc.insert(reference, value), other, env, project, user) == resolution(
            doc,
            other,
            env,
            project,
            user,
        ),
        resolution(doc.remove(reference), other, env, project, user) == resolution(
            doc,
            other,
            env,
            project,
            user,
        ),
{
}

/// The process environment wins: a key that it has is the one that is found, and no stored key is
/// written or removed meanwhile.
pub proof fn environment_wins(
    doc: Map<Seq<char>, Seq<char>>,
    reference: Seq<char>,
    value: Seq<char>,
    env: Option<Seq<char>>,
    project: DotEnv,
    user: DotEnv,
)
    requires
        is_ref_name(reference),
        shadows(env),
    ensures
        resolution(doc, reference, env, project, user) == Ok::<_, ErrorView>(
            Some(ResolvedView { value: env->0, source: "env"@ }),
        ),
        set_error(reference, value, env) is Some,
        unset_error(reference, env) == Some(ErrorView::Shadowed(reference)),
{
}

/// No key that is found is empty.
pub proof fn found_key_is_not_empty(
    doc: Map<Seq<char>, Seq<char>>,
    reference: Seq<char>,
    env: Option<Seq<char>>,
    project: DotEnv,
    user: DotEnv,
)
    ensures
        resolution(doc, reference, env, project, user) matches Ok(Some(found))
            ==> found.value.len() > 0,
{
}

/// A key that was removed is not found in the document any more.
pub proof fn removed_key_is_not_found_in_the_document(
    doc: Map<Seq<char>, Seq<char>>,
    reference: Seq<char>,
    env: Option<Seq<char>>,
    project: DotEnv,
    user: DotEnv,
)
    ensures
        resolution(doc.remove(reference), reference, env, project, user) matches Ok(Some(found))
            ==> found.source != "file"@,
{
    reveal_strlit("file");
    reveal_strlit("env");
    reveal_strlit("project-env");
    reveal_strlit("user-env");
    assert("file"@.len() == 4 && "env"@.len() == 3 && "project-env"@.len() == 11
        && "user-env"@.len() == 8);
}

} // verus!
