//! What a plugin can ask of the host: to queue URLs, to write a line to the
//! log, and to copy one file into its data folder. Nothing else is exported.
//! Each function takes the request as the plugin sent it and decides what
//! the host does; a request that fails a check is turned down and the
//! plugin runs on.

use vstd::prelude::*;
use vstd::string::*;
use crate::config::LensView;
use crate::error::CrawlError;
use crate::models::crawl_queue::{
    admission, enqueue_all, evolves, CrawlType, EnqueueSettings, Verdict,
};
use crate::normalize::parsed_all;
use crate::paths::{bare_name, child_path, is_bare_name, join};
use crate::plugin::{PluginEnqueueRequest, PluginEnv, PluginMountRequest};
use crate::state::AppState;

verus! {

/// A function of the host that plugins can call.
#[derive(Clone, Copy, Debug, PartialEq, Eq, Structural)]
pub enum HostFunction {
    Enqueue,
    Log,
    SyncFile,
}

impl HostFunction {
    /// The names under which the functions are exported.
    pub open spec fn spec_export_name(self) -> Seq<char> {
        match self {
            HostFunction::Enqueue => "plugin_enqueue"@,
            HostFunction::Log => "plugin_log"@,
            HostFunction::SyncFile => "plugin_sync_file"@,
        }
    }

    /// The name under which the function is exported to plugins.
    pub fn export_name(&self) -> (res: &'static str)
        ensures
            res@ == self.spec_export_name(),
    {
        match self {
            HostFunction::Enqueue => "plugin_enqueue",
            HostFunction::Log => "plugin_log",
            HostFunction::SyncFile => "plugin_sync_file",
        }
    }
}

/// The functions that the host exports to a plugin: these three, each once.
pub fn register_exports() -> (res: Vec<HostFunction>)
    ensures
        res@ == seq![HostFunction::Enqueue, HostFunction::Log, HostFunction::SyncFile],
{
    let mut exports: Vec<HostFunction> = Vec::new();
    exports.push(HostFunction::Enqueue);
    exports.push(HostFunction::Log);
    exports.push(HostFunction::SyncFile);
    assert(exports@ =~= seq![HostFunction::Enqueue, HostFunction::Log, HostFunction::SyncFile]);
    exports
}

/// The line that the host logs for a plugin's message: the plugin's name, a
/// colon and a blank, then the message.
pub open spec fn log_line(name: Seq<char>, msg: Seq<char>) -> Seq<char> {
    name + seq![':', ' '] + msg
}

/// The line to log for the message `msg` of the plugin. There is no message
/// that this turns down.
pub fn plugin_log(env: &PluginEnv, msg: &str) -> (res: String)
    ensures
        res@ == log_line(env.name@, msg@),
{
    proof {
        reveal_strlit(": ");
        assert(": "@ =~= seq![':', ' ']);
    }
    let mut line = env.name.clone();
    line.append(": ");
    line.append(msg);
    line
}

/// A copy of one file that the host is to make.
#[derive(Debug)]
pub struct FileCopy {
    /// The file to copy.
    pub from: String,
    /// Where the copy goes.
    pub to: String,
}

/// Adds a file into the plugin data directory. Use this to copy files from
/// elsewhere in the filesystem so that it can be processed by the plugin.
///
/// `source_is_file` says whether the request's source is a regular file,
/// which the caller has looked up. The request is turned down unless it is,
/// and unless the destination is a bare file name. Where it is accepted,
/// the copy goes to the entry of that name in the plugin's data folder.
pub fn plugin_sync_file(env: &PluginEnv, request: &PluginMountRequest, source_is_file: bool) -> (res:
    Result<FileCopy, CrawlError>)
    ensures
        res is Ok <==> source_is_file && is_bare_name(request.dst@),
        res matches Ok(copy) ==> copy.from@ == request.src@ && copy.to@ == child_path(
            env.data_dir@,
            request.dst@,
        ),
        res matches Err(e) ==> e == CrawlError::SandboxViolation,
{
    if !source_is_file {
        return Err(CrawlError::SandboxViolation);
    }
    if !bare_name(request.dst.as_str()) {
        return Err(CrawlError::SandboxViolation);
    }
    Ok(
        FileCopy {
            from: request.src.clone(),
            to: join(env.data_dir.as_str(), request.dst.as_str()),
        },
    )
}

/// A destination that holds a path separator is no bare file name, so a
/// request with such a destination is turned down.
pub proof fn lemma_separator_is_refused(dst: Seq<char>)
    requires
        dst.contains('/') || dst.contains('\\'),
    ensures
        !is_bare_name(dst),
{
}

/// The copy of an accepted request lies directly in the data folder: its
/// path is the folder's, a separator, and a name without a separator that
/// is neither `.` nor `..`.
pub proof fn lemma_copy_stays_inside(data_dir: Seq<char>, dst: Seq<char>)
    requires
        is_bare_name(dst),
    ensures
        data_dir.is_prefix_of(child_path(data_dir, dst)),
        child_path(data_dir, dst)[data_dir.len() as int] == '/',
        child_path(data_dir, dst).subrange(data_dir.len() as int + 1, child_path(data_dir, dst).len() as int)
            == dst,
{
    let p = child_path(data_dir, dst);
    assert(data_dir =~= p.subrange(0, data_dir.len() as int));
    assert(p.subrange(data_dir.len() as int + 1, p.len() as int) =~= dst);
}

/// The rules that a plugin's enqueue runs under: the user's settings, no
/// lens restriction, and the tag `Plugin` on what is queued.
pub open spec fn plugin_overrides() -> EnqueueSettings {
    EnqueueSettings { skip_blocklist: false, crawl_type: CrawlType::Plugin }
}

/// Queues the URLs that a plugin asks for, under the same rules as any
/// enqueue, and says what became of each. The tasks are tagged as
/// `CrawlType::Plugin`. Malformed URLs are skipped.
pub fn plugin_enqueue(
    state: &mut AppState,
    request: &PluginEnqueueRequest,
    now: i64,
) -> (res: Vec<Verdict>)
    ensures
        final(state).app_state == old(state).app_state,
        final(state).lenses == old(state).lenses,
        final(state).user_settings == old(state).user_settings,
        final(state).db@ == admission(
            Seq::empty(),
            old(state).user_settings@,
            plugin_overrides(),
            now,
        ).take_in_all(old(state).db@, parsed_all(request.urls@)),
        res@ == admission(
            Seq::empty(),
            old(state).user_settings@,
            plugin_overrides(),
            now,
        ).verdicts(old(state).db@, parsed_all(request.urls@)),
        evolves(old(state).db@, final(state).db@),
{
    let lenses = Vec::new();
    let overrides = EnqueueSettings { skip_blocklist: false, crawl_type: CrawlType::Plugin };
    proof {
        assert(crate::config::lens_views(lenses@) =~= Seq::<LensView>::empty());
        let pol = admission(lenses@, state.user_settings@, overrides, now);
        assert(pol == admission(Seq::empty(), state.user_settings@, plugin_overrides(), now));
    }
    enqueue_all(&mut state.db, &request.urls, &lenses, &state.user_settings, &overrides, now)
}

} // verus!
