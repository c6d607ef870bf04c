//! Resolving the display name of a process.
//!
//! The resolver never touches the platform. It is a conversation: each
//! [`Resolver`] value names the one thing to ask the platform next, and
//! [`Resolver::advance`] takes the platform's answer to the next value, until
//! the conversation is [`Resolver::Finished`].

use crate::path::{file_name, file_stem, file_stem_of};
use crate::text::{hex4, hex4_text, strip_trailing_nuls, without_trailing_nuls};
use vstd::prelude::*;
use vstd::string::StringExecFns;

verus! {

/// What is known of a process once its name is resolved.
#[derive(Clone, Debug, PartialEq, Eq)]
pub struct ProcessInfo {
    pub process_id: u32,
    pub process_name: String,
    pub process_path: String,
}

/// One entry of the translation table of a version resource.
#[derive(Clone, Copy, Debug, PartialEq, Eq)]
pub struct LangCodePage {
    pub w_language: u16,
    pub w_code_page: u16,
}

/// Why a process could not be resolved at all.
#[derive(Clone, Copy, Debug, PartialEq, Eq)]
pub enum ResolveError {
    /// The platform opened no handle to the process.
    ProcessUnavailable,
    /// The platform did not tell the path of the process's executable.
    PathUnavailable,
}

/// The names of the version-resource entries that the resolver asks for.
pub struct WindowsPlatformApi {}

/// The entry that holds the file description in the given language and code page.
pub open spec fn description_key(entry: LangCodePage) -> Seq<char> {
    "\\StringFileInfo\\"@ + hex4(entry.w_language) + hex4(entry.w_code_page)
        + "\\FileDescription"@
}

impl WindowsPlatformApi {
    /// The entry that holds the translation table.
    pub fn translation_query() -> (key: String)
        ensures
            key@ == "\\VarFileInfo\\Translation"@,
    {
        String::from_str("\\VarFileInfo\\Translation")
    }

    /// The entry that holds the file description for one row of the translation table.
    pub fn description_query(entry: LangCodePage) -> (key: String)
        ensures
            key@ == description_key(entry),
    {
        let mut key = String::from_str("\\StringFileInfo\\");
        let language = hex4_text(entry.w_language);
        key.append(language.as_str());
        let code_page = hex4_text(entry.w_code_page);
        key.append(code_page.as_str());
        key.append("\\FileDescription");
        assert(key@ =~= description_key(entry));
        key
    }
}

/// The 16-bit word that two bytes spell, the low byte first.
pub open spec fn word(low: u8, high: u8) -> u16 {
    (low + 256 * high) as u16
}

/// The first row of a translation table given as its bytes: a language and a
/// code page, each a word with its low byte first. A table of fewer than four
/// bytes has no row.
pub open spec fn first_translation(table: Seq<u8>) -> Option<LangCodePage> {
    if table.len() >= 4 {
        Some(
            LangCodePage {
                w_language: word(table[0], table[1]),
                w_code_page: word(table[2], table[3]),
            },
        )
    } else {
        None
    }
}

/// Reads the first row of a translation table.
pub fn read_first_translation(table: &Vec<u8>) -> (entry: Option<LangCodePage>)
    ensures
        entry == first_translation(table@),
{
    if table.len() >= 4 {
        let w_language: u16 = table[0] as u16 + 256 * (table[1] as u16);
        let w_code_page: u16 = table[2] as u16 + 256 * (table[3] as u16);
        Some(LangCodePage { w_language, w_code_page })
    } else {
        None
    }
}

/// The text that a run of UTF-16 code units decodes to, invalid data
/// replaced by U+FFFD.
pub uninterp spec fn utf16_lossy(units: Seq<u16>) -> Seq<char>;

/// Calls `String::from_utf16_lossy` of the standard library. Its contract is
/// taken on trust: the text returned is the lossy decoding of the units, and
/// depends on nothing but the units.
#[verifier::external_body]
fn decode_utf16(units: &Vec<u16>) -> (text: String)
    ensures
        text@ == utf16_lossy(units@),
{
    String::from_utf16_lossy(units)
}

/// The characters of a description, if there is one.
pub open spec fn description_view(file_description: Option<String>) -> Option<Seq<char>> {
    match file_description {
        Some(text) => Some(text@),
        None => None,
    }
}

/// The display name of the process at `path`: its file description without
/// trailing NULs where that leaves anything, else the stem of its file name.
pub open spec fn process_name(path: Seq<char>, file_description: Option<Seq<char>>) -> Seq<char> {
    match file_description {
        Some(text) => if strip_trailing_nuls(text).len() > 0 {
            strip_trailing_nuls(text)
        } else {
            file_stem(path)
        },
        None => file_stem(path),
    }
}

/// Chooses the display name of a process from the path of its executable and
/// the file description read from it, if one was read. There is a name for
/// every path and every description: where neither gives one, such as for a
/// path that ends in `..`, it is the empty name.
pub fn get_process_name(process_path: &str, file_description: Option<String>) -> (name: String)
    ensures
        name@ == process_name(process_path@, description_view(file_description)),
{
    match file_description {
        Some(text) => {
            let stripped = without_trailing_nuls(text.as_str());
            if stripped.as_str().is_empty() {
                file_stem_of(process_path)
            } else {
                stripped
            }
        },
        None => file_stem_of(process_path),
    }
}

/// What the platform answered to a request of the resolver.
#[derive(Debug)]
pub enum ResolveReply {
    /// The request succeeded; there is nothing to hand back.
    Done,
    /// The request failed.
    Failed,
    /// The full path of the executable.
    Path(String),
    /// The size of the version resource in bytes.
    Size(u32),
    /// The bytes of the translation table of the version resource.
    Translation(Vec<u8>),
    /// The UTF-16 code units of a string entry.
    Text(Vec<u16>),
}

/// The state of one resolution, named after the request that is pending.
#[derive(Debug)]
pub enum Resolver {
    /// Open a handle to the process with limited query rights.
    OpenProcess { process_id: u32 },
    /// Query the full path of the executable through the handle.
    QueryImagePath { process_id: u32 },
    /// Release the handle; `found` is what the query gave.
    CloseProcess { process_id: u32, found: Option<String> },
    /// Ask for the size of the version resource of the file at `path`.
    QueryInfoSize { process_id: u32, path: String },
    /// Load `size` bytes of version resource from the file at `path`.
    LoadInfo { process_id: u32, path: String, size: u32 },
    /// Query the translation table of the loaded resource.
    QueryTranslation { process_id: u32, path: String },
    /// Query the string entry `key` of the loaded resource.
    QueryDescription { process_id: u32, path: String, key: String },
    /// Nothing is left to ask.
    Finished { outcome: Result<ProcessInfo, ResolveError> },
}

/// `info` describes the process `process_id` at `path`, named from `file_description`.
pub open spec fn describes(
    info: ProcessInfo,
    process_id: u32,
    path: String,
    file_description: Option<Seq<char>>,
) -> bool {
    &&& info.process_id == process_id
    &&& info.process_path == path
    &&& info.process_name@ == process_name(path@, file_description)
}

/// `state` is finished with the process `process_id` at `path`, named from `file_description`.
pub open spec fn resolved(
    state: Resolver,
    process_id: u32,
    path: String,
    file_description: Option<Seq<char>>,
) -> bool {
    state matches Resolver::Finished { outcome: Ok(info) } && describes(
        info,
        process_id,
        path,
        file_description,
    )
}

/// How the first part of a resolution, which finds the path of the
/// executable, moves on `reply`.
pub open spec fn path_step(state: Resolver, reply: ResolveReply, next: Resolver) -> bool {
    match state {
        Resolver::OpenProcess { process_id } => match reply {
            ResolveReply::Done => next == (Resolver::QueryImagePath { process_id }),
            _ => next == (Resolver::Finished { outcome: Err(ResolveError::ProcessUnavailable) }),
        },
        Resolver::QueryImagePath { process_id } => match reply {
            ResolveReply::Path(path) => next == (Resolver::CloseProcess {
                process_id,
                found: Some(path),
            }),
            _ => next == (Resolver::CloseProcess { process_id, found: None }),
        },
        Resolver::CloseProcess { process_id, found } => match found {
            Some(path) => next == (Resolver::QueryInfoSize { process_id, path }),
            None => next == (Resolver::Finished { outcome: Err(ResolveError::PathUnavailable) }),
        },
        _ => next == state,
    }
}

/// How the second part of a resolution, which looks for a file description
/// in the version resource, moves on `reply`.
pub open spec fn description_step(state: Resolver, reply: ResolveReply, next: Resolver) -> bool {
    match state {
        Resolver::QueryInfoSize { process_id, path } => match reply {
            ResolveReply::Size(size) => if size > 0 {
                next == (Resolver::LoadInfo { process_id, path, size })
            } else {
                resolved(next, process_id, path, None)
            },
            _ => resolved(next, process_id, path, None),
        },
        Resolver::LoadInfo { process_id, path, size } => match reply {
            ResolveReply::Done => next == (Resolver::QueryTranslation { process_id, path }),
            _ => resolved(next, process_id, path, None),
        },
        Resolver::QueryTranslation { process_id, path } => match reply {
            ResolveReply::Translation(table) => match first_translation(table@) {
                Some(entry) => {
                    &&& next matches Resolver::QueryDescription {
                        process_id: next_id,
                        path: next_path,
                        key,
                    }
                    &&& next_id == process_id
                    &&& next_path == path
                    &&& key@ == description_key(entry)
                },
                None => resolved(next, process_id, path, None),
            },
            _ => resolved(next, process_id, path, None),
        },
        Resolver::QueryDescription { process_id, path, key } => match reply {
            ResolveReply::Text(units) => resolved(
                next,
                process_id,
                path,
                Some(utf16_lossy(units@)),
            ),
            _ => resolved(next, process_id, path, None),
        },
        _ => next == state,
    }
}

/// The resolution that names the process at `path` from `file_description`.
fn finish(process_id: u32, path: String, file_description: Option<String>) -> (next: Resolver)
    ensures
        resolved(next, process_id, path, description_view(file_description)),
{
    let process_name = get_process_name(path.as_str(), file_description);
    Resolver::Finished {
        outcome: Ok(ProcessInfo { process_id, process_name, process_path: path }),
    }
}

/// Moves the part of a resolution that finds the path of the executable:
/// the handle is opened, the path queried, and the handle released whatever
/// the query gave.
fn get_process_path(state: Resolver, reply: ResolveReply) -> (next: Resolver)
    ensures
        path_step(state, reply, next),
{
    match state {
        Resolver::OpenProcess { process_id } => match reply {
            ResolveReply::Done => Resolver::QueryImagePath { process_id },
            _ => Resolver::Finished { outcome: Err(ResolveError::ProcessUnavailable) },
        },
        Resolver::QueryImagePath { process_id } => match reply {
            ResolveReply::Path(path) => Resolver::CloseProcess { process_id, found: Some(path) },
            _ => Resolver::CloseProcess { process_id, found: None },
        },
        Resolver::CloseProcess { process_id, found } => match found {
            Some(path) => Resolver::QueryInfoSize { process_id, path },
            None => Resolver::Finished { outcome: Err(ResolveError::PathUnavailable) },
        },
        other => other,
    }
}

/// Moves the part of a resolution that looks for a file description: any
/// failure on the way ends the search without a description, never in an error.
fn get_file_description(state: Resolver, reply: ResolveReply) -> (next: Resolver)
    ensures
        description_step(state, reply, next),
{
    match state {
        Resolver::QueryInfoSize { process_id, path } => match reply {
            ResolveReply::Size(size) => if size > 0 {
                Resolver::LoadInfo { process_id, path, size }
            } else {
                finish(process_id, path, None)
            },
            _ => finish(process_id, path, None),
        },
        Resolver::LoadInfo { process_id, path, size } => match reply {
            ResolveReply::Done => Resolver::QueryTranslation { process_id, path },
            _ => finish(process_id, path, None),
        },
        Resolver::QueryTranslation { process_id, path } => match reply {
            ResolveReply::Translation(table) => match read_first_translation(&table) {
                Some(entry) => {
                    let key = WindowsPlatformApi::description_query(entry);
                    Resolver::QueryDescription { process_id, path, key }
                },
                None => finish(process_id, path, None),
            },
            _ => finish(process_id, path, None),
        },
        Resolver::QueryDescription { process_id, path, key } => match reply {
            ResolveReply::Text(units) => {
                let text = decode_utf16(&units);
                finish(process_id, path, Some(text))
            },
            _ => finish(process_id, path, None),
        },
        other => other,
    }
}

impl Resolver {
    /// Whether the resolution is still looking for the path of the executable.
    pub open spec fn seeks_path(self) -> bool {
        self is OpenProcess || self is QueryImagePath || self is CloseProcess
    }

    /// How a resolution moves on `reply`.
    pub open spec fn step(self, reply: ResolveReply, next: Resolver) -> bool {
        if self.seeks_path() {
            path_step(self, reply, next)
        } else {
            description_step(self, reply, next)
        }
    }

    /// Takes the platform's answer to the pending request and gives the
    /// resolution in its next state. A finished resolution stays as it is.
    pub fn advance(self, reply: ResolveReply) -> (next: Resolver)
        ensures
            self.step(reply, next),
    {
        match self {
            Resolver::OpenProcess { .. }
            | Resolver::QueryImagePath { .. }
            | Resolver::CloseProcess { .. } => get_process_path(self, reply),
            _ => get_file_description(self, reply),
        }
    }
}

/// Begins to resolve the process `process_id`.
pub fn get_process_info(process_id: u32) -> (state: Resolver)
    ensures
        state == (Resolver::OpenProcess { process_id }),
{
    Resolver::OpenProcess { process_id }
}

/// A process without a usable file description is named after the stem of
/// its executable's file name.
pub proof fn lemma_fallback_is_file_stem(path: Seq<char>, file_description: Option<Seq<char>>)
    requires
        file_description matches Some(text) ==> strip_trailing_nuls(text).len() == 0,
    ensures
        process_name(path, file_description) == file_stem(path),
{
}

/// A process without a usable file description whose path has no file name,
/// such as one that ends in `..`, gets the empty name.
pub proof fn lemma_no_file_name_gives_empty_name(
    path: Seq<char>,
    file_description: Option<Seq<char>>,
)
    requires
        file_description matches Some(text) ==> strip_trailing_nuls(text).len() == 0,
        file_name(path) is None,
    ensures
        process_name(path, file_description) == Seq::<char>::empty(),
{
}

/// Once the path of the executable is known, a resolution cannot end in an
/// error: whatever the platform answers about the version resource, the
/// resolution goes on or ends with a name.
pub proof fn lemma_description_never_fails(state: Resolver, reply: ResolveReply, next: Resolver)
    requires
        state.step(reply, next),
        !state.seeks_path(),
        !(state is Finished),
    ensures
        !next.seeks_path(),
        next matches Resolver::Finished { outcome } ==> outcome is Ok,
{
}

/// While the version resource is searched, a failure of the pending request
/// ends the resolution with the stem of the executable's file name; so does
/// a version resource of size zero, a translation table without a row, and a
/// description that holds nothing but NULs.
pub proof fn lemma_missing_description_falls_back(
    state: Resolver,
    reply: ResolveReply,
    next: Resolver,
)
    requires
        state.step(reply, next),
        !state.seeks_path(),
        !(state is Finished),
        ({
            ||| reply is Failed
            ||| state is QueryInfoSize && reply == ResolveReply::Size(0)
            ||| state is QueryTranslation && (reply matches ResolveReply::Translation(table)
                && table@.len() < 4)
            ||| state is QueryDescription && (reply matches ResolveReply::Text(units)
                && strip_trailing_nuls(utf16_lossy(units@)).len() == 0)
        }),
    ensures
        next matches Resolver::Finished { outcome: Ok(info) } && info.process_name@ == file_stem(
            info.process_path@,
        ),
{
}

/// A resolution that ends with a name ends either with the file description,
/// stripped of trailing NULs and not empty, or with the stem of the
/// executable's file name.
pub proof fn lemma_name_is_description_or_file_stem(
    state: Resolver,
    reply: ResolveReply,
    next: Resolver,
)
    requires
        state.step(reply, next),
        !(state is Finished),
        next matches Resolver::Finished { outcome } && outcome is Ok,
    ensures
        ({
            let info = next->outcome->Ok_0;
            ||| info.process_name@ == file_stem(info.process_path@)
            ||| state is QueryDescription && (reply matches ResolveReply::Text(units)
                && info.process_name@ == strip_trailing_nuls(utf16_lossy(units@))
                && info.process_name@.len() > 0)
        }),
{
}

/// The handle of the process is released whatever the query for the path
/// gave, and before anything else is asked.
pub proof fn lemma_handle_is_released(state: Resolver, reply: ResolveReply, next: Resolver)
    requires
        state.step(reply, next),
        state is QueryImagePath,
    ensures
        next is CloseProcess,
{
}

/// Only the handle and the path can make a resolution fail: it ends in
/// `ProcessUnavailable` only from the request to open the process, and in
/// `PathUnavailable` only from the release of the handle after a failed query.
pub proof fn lemma_errors_come_from_handle_and_path(
    state: Resolver,
    reply: ResolveReply,
    next: Resolver,
)
    requires
        state.step(reply, next),
        !(state is Finished),
        next matches Resolver::Finished { outcome } && outcome is Err,
    ensures
        next->outcome == Err::<ProcessInfo, ResolveError>(ResolveError::ProcessUnavailable)
            ==> state is OpenProcess && !(reply is Done),
        next->outcome == Err::<ProcessInfo, ResolveError>(ResolveError::PathUnavailable)
            ==> state matches Resolver::CloseProcess { found: None, .. },
{
}

impl Resolver {
    /// An upper bound on the number of requests that are still to come,
    /// the pending one included.
    pub open spec fn pending(self) -> nat {
        match self {
            Resolver::OpenProcess { .. } => 7,
            Resolver::QueryImagePath { .. } => 6,
            Resolver::CloseProcess { .. } => 5,
            Resolver::QueryInfoSize { .. } => 4,
            Resolver::LoadInfo { .. } => 3,
            Resolver::QueryTranslation { .. } => 2,
            Resolver::QueryDescription { .. } => 1,
            Resolver::Finished { .. } => 0,
        }
    }
}

/// Every answer brings a resolution nearer to its end.
pub proof fn lemma_resolution_progresses(state: Resolver, reply: ResolveReply, next: Resolver)
    requires
        state.step(reply, next),
        !(state is Finished),
    ensures
        next.pending() < state.pending(),
{
}

} // verus!
