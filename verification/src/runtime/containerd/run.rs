//! Running one container in the foreground, over containerd's API.
//!
//! The run is a state machine: [`step`] says which phase follows when the call
//! that a phase makes has come to its end.

use crate::codec::base64::{
    base64_bytes, base64_text, decode, encode, is_base64_char, law_base64_texts_differ,
    lemma_base64_alphabet,
};
use crate::codec::json::{
    json_list, json_text, law_json_lists_are_told_apart, law_json_texts_are_told_apart,
    lemma_same_rest, push_list, quote,
};
use crate::runtime::containerd::image::{
    chain_id, chain_of, config_place, find_config, find_manifest, image_of, image_result,
    manifest_place, parse_and_find_config, parsed_config_place, place_result, read_image,
    text_result, ImageConfig, ImageConfigView,
};
use crate::runtime::containerd::oci::{layer, layered, Process, ProcessView};
use crate::text::chars::is_whitespace;
use crate::text::scan::{trim, trim_end, trim_start, trimmed};
use vstd::prelude::*;
use vstd::utf8::{encode_utf8, encode_utf8_decode_utf8};

verus! {

/// Everything that is needed to pull and run one container.
#[derive(Debug)]
pub struct ContainerdRunSpec {
    /// The socket of containerd.
    pub socket: String,
    /// The namespace in containerd.
    pub namespace: String,
    /// The image to pull and run.
    pub image: String,
    /// The container in containerd.
    pub container_id: String,
    /// The arguments; the image's where there are none.
    pub args: Vec<String>,
    /// `KEY=VALUE` entries that follow the image's.
    pub env: Vec<String>,
    /// The working directory; the image's where it is empty.
    pub cwd: String,
    /// Numeric `uid[:gid]`; the image's where there is none.
    pub user: Option<String>,
}

#[verifier::ext_equal]
pub struct RunSpecView {
    pub socket: Seq<char>,
    pub namespace: Seq<char>,
    pub image: Seq<char>,
    pub container_id: Seq<char>,
    pub args: Seq<Seq<char>>,
    pub env: Seq<Seq<char>>,
    pub cwd: Seq<char>,
    pub user: Option<Seq<char>>,
}

impl View for ContainerdRunSpec {
    type V = RunSpecView;

    open spec fn view(&self) -> RunSpecView {
        RunSpecView {
            socket: self.socket@,
            namespace: self.namespace@,
            image: self.image@,
            container_id: self.container_id@,
            args: self.args.deep_view(),
            env: self.env.deep_view(),
            cwd: self.cwd@,
            user: self.user.deep_view(),
        }
    }
}

/// A spec as a JSON object.
pub open spec fn spec_json(spec: RunSpecView) -> Seq<char> {
    "{\"socket\":"@ + json_text(spec.socket) + ",\"namespace\":"@ + json_text(spec.namespace)
        + ",\"image\":"@ + json_text(spec.image) + ",\"container_id\":"@ + json_text(
        spec.container_id,
    ) + ",\"args\":"@ + json_list(spec.args) + ",\"env\":"@ + json_list(spec.env) + ",\"cwd\":"@
        + json_text(spec.cwd) + ",\"user\":"@ + (match spec.user {
        Some(u) => json_text(u),
        None => "null"@,
    }) + "}"@
}

/// Writes a spec as a JSON object.
pub fn write_spec(spec: &ContainerdRunSpec) -> (r: String)
    ensures
        r@ == spec_json(spec@),
{
    let mut out = "{\"socket\":".to_string();
    out.append(quote(spec.socket.as_str()).as_str());
    out.append(",\"namespace\":");
    out.append(quote(spec.namespace.as_str()).as_str());
    out.append(",\"image\":");
    out.append(quote(spec.image.as_str()).as_str());
    out.append(",\"container_id\":");
    out.append(quote(spec.container_id.as_str()).as_str());
    out.append(",\"args\":");
    push_list(&mut out, &spec.args);
    out.append(",\"env\":");
    push_list(&mut out, &spec.env);
    out.append(",\"cwd\":");
    out.append(quote(spec.cwd.as_str()).as_str());
    out.append(",\"user\":");
    match &spec.user {
        Some(u) => {
            out.append(quote(u.as_str()).as_str());
        },
        None => {
            out.append("null");
        },
    }
    out.append("}");
    out
}

/// A spec as one word of a command line.
pub open spec fn encoded(spec: RunSpecView) -> Seq<char> {
    base64_text(encode_utf8(spec_json(spec)))
}

/// The bytes of a word, given what base64 makes of it, or what is amiss.
pub open spec fn word_bytes(made: Result<Seq<u8>, Seq<char>>) -> Result<Seq<u8>, Seq<char>> {
    match made {
        Ok(bytes) => Ok(bytes),
        Err(e) => Err("base64: "@ + e),
    }
}

/// What a word decodes to, once white space around it is gone.
pub open spec fn decoded(word: Seq<char>) -> Result<Seq<u8>, Seq<char>> {
    word_bytes(base64_bytes(trimmed(word)))
}

/// A result with the views of its bytes and its error.
pub open spec fn bytes_result(r: Result<Vec<u8>, String>) -> Result<Seq<u8>, Seq<char>> {
    match r {
        Ok(bytes) => Ok(bytes@),
        Err(e) => Err(e@),
    }
}

/// Takes the bytes of a word, given what base64 makes of it.
pub fn read_word(made: Result<Vec<u8>, String>) -> (r: Result<Vec<u8>, String>)
    ensures
        bytes_result(r) == word_bytes(bytes_result(made)),
{
    match made {
        Ok(bytes) => Ok(bytes),
        Err(e) => {
            let mut m = "base64: ".to_string();
            m.append(e.as_str());
            Err(m)
        },
    }
}

/// Whether a text is nothing but white space.
pub open spec fn is_blank(s: Seq<char>) -> bool {
    forall|i: int| 0 <= i < s.len() ==> is_whitespace(#[trigger] s[i])
}

/// Encodes a spec as one word that the shell leaves as it is. Whoever decodes
/// the word, with or without white space around it, gets the JSON text of the
/// spec back.
pub fn encode_spec(spec: &ContainerdRunSpec) -> (r: String)
    ensures
        r@ == encoded(spec@),
        forall|i: int| 0 <= i < r@.len() ==> is_base64_char(#[trigger] r@[i]),
        forall|before: Seq<char>, after: Seq<char>|
            is_blank(before) && is_blank(after) ==> decoded(#[trigger] (before + r@ + after)) == Ok::<
                Seq<u8>,
                Seq<char>,
            >(encode_utf8(spec_json(spec@))),
{
    let json = write_spec(spec);
    let r = encode(&json.as_str().as_bytes_vec());
    proof {
        lemma_base64_alphabet(encode_utf8(spec_json(spec@)));
        assert forall|before: Seq<char>, after: Seq<char>|
            is_blank(before) && is_blank(after) implies trimmed(#[trigger] (before + r@ + after))
            == r@ by {
            lemma_base64_trimmed(before, r@, after);
        }
    }
    r
}

/// Decodes a word into the JSON text of a spec.
pub fn decode_spec(word: &str) -> (r: Result<Vec<u8>, String>)
    ensures
        bytes_result(r) == decoded(word@),
{
    read_word(decode(trim(word).as_str()))
}

proof fn lemma_trim_blank_start(before: Seq<char>, s: Seq<char>)
    requires
        is_blank(before),
    ensures
        trim_start(before + s) == trim_start(s),
    decreases before.len(),
{
    if before.len() == 0 {
        assert(before + s =~= s);
    } else {
        let rest = before.skip(1);
        assert((before + s)[0] == before[0]);
        assert((before + s).skip(1) =~= rest + s);
        assert forall|i: int| 0 <= i < rest.len() implies is_whitespace(#[trigger] rest[i]) by {
            assert(rest[i] == before[i + 1]);
        }
        lemma_trim_blank_start(rest, s);
    }
}

proof fn lemma_trim_blank_end(s: Seq<char>, after: Seq<char>)
    requires
        is_blank(after),
    ensures
        trim_end(s + after) == trim_end(s),
    decreases after.len(),
{
    if after.len() == 0 {
        assert(s + after =~= s);
    } else {
        let rest = after.drop_last();
        assert((s + after).last() == after[after.len() - 1]);
        assert((s + after).drop_last() =~= s + rest);
        assert forall|i: int| 0 <= i < rest.len() implies is_whitespace(#[trigger] rest[i]) by {
            assert(rest[i] == after[i]);
        }
        lemma_trim_blank_end(s, rest);
    }
}

/// White space around a base64 text goes, and nothing else.
proof fn lemma_base64_trimmed(before: Seq<char>, text: Seq<char>, after: Seq<char>)
    requires
        is_blank(before),
        is_blank(after),
        forall|i: int| 0 <= i < text.len() ==> is_base64_char(#[trigger] text[i]),
    ensures
        trimmed(before + text + after) == text,
{
    assert(before + text + after =~= before + (text + after));
    lemma_trim_blank_start(before, text + after);
    if text.len() > 0 {
        assert(is_base64_char(text[0]));
        assert(is_base64_char(text[text.len() - 1]));
        assert((text + after)[0] == text[0]);
        assert(trim_start(text + after) == text + after);
        lemma_trim_blank_end(text, after);
        assert(trim_end(text) == text);
    } else {
        assert(text + after =~= after + text);
        lemma_trim_blank_start(after, text);
        assert(trim_start(text) == text);
        assert(trim_end(text) == text);
    }
}

/// The parts of a spec's JSON object, from the last field up.
spec fn user_on(spec: RunSpecView) -> Seq<char> {
    (match spec.user {
        Some(u) => json_text(u),
        None => "null"@,
    }) + "}"@
}

spec fn cwd_on(spec: RunSpecView) -> Seq<char> {
    json_text(spec.cwd) + (",\"user\":"@ + user_on(spec))
}

spec fn env_on(spec: RunSpecView) -> Seq<char> {
    json_list(spec.env) + (",\"cwd\":"@ + cwd_on(spec))
}

spec fn args_on(spec: RunSpecView) -> Seq<char> {
    json_list(spec.args) + (",\"env\":"@ + env_on(spec))
}

spec fn container_on(spec: RunSpecView) -> Seq<char> {
    json_text(spec.container_id) + (",\"args\":"@ + args_on(spec))
}

spec fn image_on(spec: RunSpecView) -> Seq<char> {
    json_text(spec.image) + (",\"container_id\":"@ + container_on(spec))
}

spec fn namespace_on(spec: RunSpecView) -> Seq<char> {
    json_text(spec.namespace) + (",\"image\":"@ + image_on(spec))
}

spec fn socket_on(spec: RunSpecView) -> Seq<char> {
    json_text(spec.socket) + (",\"namespace\":"@ + namespace_on(spec))
}

proof fn lemma_joined(head: Seq<char>, key: Seq<char>, value: Seq<char>, rest: Seq<char>)
    ensures
        head + key + value + rest == head + (key + (value + rest)),
{
    assert(head + key + value + rest =~= head + (key + (value + rest)));
}

proof fn lemma_spec_json(spec: RunSpecView)
    ensures
        spec_json(spec) == "{\"socket\":"@ + socket_on(spec),
{
    let socket = "{\"socket\":"@ + json_text(spec.socket);
    let namespace = socket + ",\"namespace\":"@ + json_text(spec.namespace);
    let image = namespace + ",\"image\":"@ + json_text(spec.image);
    let container = image + ",\"container_id\":"@ + json_text(spec.container_id);
    let args = container + ",\"args\":"@ + json_list(spec.args);
    let env = args + ",\"env\":"@ + json_list(spec.env);
    let cwd = env + ",\"cwd\":"@ + json_text(spec.cwd);
    let user = match spec.user {
        Some(u) => json_text(u),
        None => "null"@,
    };
    lemma_joined(cwd, ",\"user\":"@, user, "}"@);
    lemma_joined(env, ",\"cwd\":"@, json_text(spec.cwd), ",\"user\":"@ + user_on(spec));
    lemma_joined(args, ",\"env\":"@, json_list(spec.env), ",\"cwd\":"@ + cwd_on(spec));
    lemma_joined(container, ",\"args\":"@, json_list(spec.args), ",\"env\":"@ + env_on(spec));
    lemma_joined(
        image,
        ",\"container_id\":"@,
        json_text(spec.container_id),
        ",\"args\":"@ + args_on(spec),
    );
    lemma_joined(
        namespace,
        ",\"image\":"@,
        json_text(spec.image),
        ",\"container_id\":"@ + container_on(spec),
    );
    lemma_joined(
        socket,
        ",\"namespace\":"@,
        json_text(spec.namespace),
        ",\"image\":"@ + image_on(spec),
    );
    lemma_joined(
        Seq::empty(),
        "{\"socket\":"@,
        json_text(spec.socket),
        ",\"namespace\":"@ + namespace_on(spec),
    );
    assert(Seq::<char>::empty() + "{\"socket\":"@ =~= "{\"socket\":"@);
    assert(Seq::<char>::empty() + ("{\"socket\":"@ + socket_on(spec)) =~= "{\"socket\":"@ + socket_on(
        spec,
    ));
}

proof fn lemma_users_differ(a: RunSpecView, b: RunSpecView)
    requires
        user_on(a) == user_on(b),
    ensures
        a.user == b.user,
{
    reveal_strlit("null");
    reveal_strlit("\"");
    match (a.user, b.user) {
        (Some(u), Some(v)) => {
            law_json_texts_are_told_apart(u, v, "}"@, "}"@);
        },
        (Some(u), None) => {
            assert(user_on(a)[0] == '"');
            assert(user_on(b)[0] == 'n');
        },
        (None, Some(v)) => {
            assert(user_on(a)[0] == 'n');
            assert(user_on(b)[0] == '"');
        },
        (None, None) => {},
    }
}

/// Specs are told apart by their JSON texts: one text stands for one spec, equal
/// in every field.
pub proof fn law_specs_are_told_apart(a: RunSpecView, b: RunSpecView)
    requires
        spec_json(a) == spec_json(b),
    ensures
        a == b,
{
    lemma_spec_json(a);
    lemma_spec_json(b);
    lemma_same_rest("{\"socket\":"@, socket_on(a), socket_on(b));
    law_json_texts_are_told_apart(
        a.socket,
        b.socket,
        ",\"namespace\":"@ + namespace_on(a),
        ",\"namespace\":"@ + namespace_on(b),
    );
    lemma_same_rest(",\"namespace\":"@, namespace_on(a), namespace_on(b));
    law_json_texts_are_told_apart(
        a.namespace,
        b.namespace,
        ",\"image\":"@ + image_on(a),
        ",\"image\":"@ + image_on(b),
    );
    lemma_same_rest(",\"image\":"@, image_on(a), image_on(b));
    law_json_texts_are_told_apart(
        a.image,
        b.image,
        ",\"container_id\":"@ + container_on(a),
        ",\"container_id\":"@ + container_on(b),
    );
    lemma_same_rest(",\"container_id\":"@, container_on(a), container_on(b));
    law_json_texts_are_told_apart(
        a.container_id,
        b.container_id,
        ",\"args\":"@ + args_on(a),
        ",\"args\":"@ + args_on(b),
    );
    lemma_same_rest(",\"args\":"@, args_on(a), args_on(b));
    law_json_lists_are_told_apart(
        a.args,
        b.args,
        ",\"env\":"@ + env_on(a),
        ",\"env\":"@ + env_on(b),
    );
    lemma_same_rest(",\"env\":"@, env_on(a), env_on(b));
    law_json_lists_are_told_apart(
        a.env,
        b.env,
        ",\"cwd\":"@ + cwd_on(a),
        ",\"cwd\":"@ + cwd_on(b),
    );
    lemma_same_rest(",\"cwd\":"@, cwd_on(a), cwd_on(b));
    law_json_texts_are_told_apart(
        a.cwd,
        b.cwd,
        ",\"user\":"@ + user_on(a),
        ",\"user\":"@ + user_on(b),
    );
    lemma_same_rest(",\"user\":"@, user_on(a), user_on(b));
    lemma_users_differ(a, b);
}

/// Different specs are encoded as different words.
pub proof fn law_words_are_told_apart(a: RunSpecView, b: RunSpecView)
    requires
        encoded(a) == encoded(b),
    ensures
        a == b,
{
    law_base64_texts_differ(encode_utf8(spec_json(a)), encode_utf8(spec_json(b)));
    encode_utf8_decode_utf8(spec_json(a));
    encode_utf8_decode_utf8(spec_json(b));
    law_specs_are_told_apart(a, b);
}

/// A run spec survives its way over the command line: a word that decodes to what
/// one spec is written as decodes to no spec but that one, equal in every field.
pub proof fn law_runs_round_trip(word: Seq<char>, a: RunSpecView, b: RunSpecView)
    requires
        decoded(word) == Ok::<Seq<u8>, Seq<char>>(encode_utf8(spec_json(a))),
        decoded(word) == Ok::<Seq<u8>, Seq<char>>(encode_utf8(spec_json(b))),
    ensures
        a == b,
{
    encode_utf8_decode_utf8(spec_json(a));
    encode_utf8_decode_utf8(spec_json(b));
    law_specs_are_told_apart(a, b);
}

/// Where a run stands. Each phase but the last two makes one call.
#[derive(Debug)]
pub enum RunPhase {
    /// Connecting to containerd.
    Connect,
    /// Clearing what an earlier run may have left.
    Clear,
    /// Pulling the image.
    Pull,
    /// Asking what the image points at.
    GetImage,
    /// Reading what the image points at: a manifest, or an index of manifests.
    ReadTarget { digest: String },
    /// Reading the manifest that the index names.
    ReadManifest { digest: String },
    /// Reading the image config.
    ReadConfig { digest: String },
    /// Preparing a writable snapshot on top of the image's layers.
    Prepare { parent: String, config: ImageConfig },
    /// Creating the container.
    Create { process: Process },
    /// Creating the task.
    CreateTask,
    /// Starting the task.
    StartTask,
    /// Listening for the signal to terminate.
    HandleTerm,
    /// Listening for the signal to interrupt.
    HandleInt,
    /// Waiting for the task to exit, or for a signal.
    Wait,
    /// Removing task, container and snapshot.
    Teardown { code: i32 },
    /// Finished with a code.
    Finished { code: i32 },
    /// Given up.
    Failed { message: String },
}

#[verifier::ext_equal]
pub enum RunPhaseView {
    Connect,
    Clear,
    Pull,
    GetImage,
    ReadTarget { digest: Seq<char> },
    ReadManifest { digest: Seq<char> },
    ReadConfig { digest: Seq<char> },
    Prepare { parent: Seq<char>, config: ImageConfigView },
    Create { process: ProcessView },
    CreateTask,
    StartTask,
    HandleTerm,
    HandleInt,
    Wait,
    Teardown { code: i32 },
    Finished { code: i32 },
    Failed { message: Seq<char> },
}

impl View for RunPhase {
    type V = RunPhaseView;

    open spec fn view(&self) -> RunPhaseView {
        match *self {
            RunPhase::Connect => RunPhaseView::Connect,
            RunPhase::Clear => RunPhaseView::Clear,
            RunPhase::Pull => RunPhaseView::Pull,
            RunPhase::GetImage => RunPhaseView::GetImage,
            RunPhase::ReadTarget { digest } => RunPhaseView::ReadTarget { digest: digest@ },
            RunPhase::ReadManifest { digest } => RunPhaseView::ReadManifest { digest: digest@ },
            RunPhase::ReadConfig { digest } => RunPhaseView::ReadConfig { digest: digest@ },
            RunPhase::Prepare { parent, config } => RunPhaseView::Prepare {
                parent: parent@,
                config: config@,
            },
            RunPhase::Create { process } => RunPhaseView::Create { process: process@ },
            RunPhase::CreateTask => RunPhaseView::CreateTask,
            RunPhase::StartTask => RunPhaseView::StartTask,
            RunPhase::HandleTerm => RunPhaseView::HandleTerm,
            RunPhase::HandleInt => RunPhaseView::HandleInt,
            RunPhase::Wait => RunPhaseView::Wait,
            RunPhase::Teardown { code } => RunPhaseView::Teardown { code },
            RunPhase::Finished { code } => RunPhaseView::Finished { code },
            RunPhase::Failed { message } => RunPhaseView::Failed { message: message@ },
        }
    }
}

/// What came of a phase's call.
#[derive(Debug)]
pub enum RunEvent {
    /// It succeeded.
    Done,
    /// It failed.
    Error(String),
    /// The image points at a blob, or at none.
    Target(Option<String>),
    /// A blob was read.
    Content(Vec<u8>),
    /// Reading a blob broke off.
    ChunkError(String),
    /// The task exited.
    Exited(u32),
    /// The signal to terminate came.
    Terminated,
    /// The signal to interrupt came.
    Interrupted,
}

#[verifier::ext_equal]
pub enum RunEventView {
    Done,
    Error(Seq<char>),
    Target(Option<Seq<char>>),
    Content(Seq<u8>),
    ChunkError(Seq<char>),
    Exited(u32),
    Terminated,
    Interrupted,
}

impl View for RunEvent {
    type V = RunEventView;

    open spec fn view(&self) -> RunEventView {
        match *self {
            RunEvent::Done => RunEventView::Done,
            RunEvent::Error(e) => RunEventView::Error(e@),
            RunEvent::Target(d) => RunEventView::Target(d.deep_view()),
            RunEvent::Content(b) => RunEventView::Content(b@),
            RunEvent::ChunkError(e) => RunEventView::ChunkError(e@),
            RunEvent::Exited(s) => RunEventView::Exited(s),
            RunEvent::Terminated => RunEventView::Terminated,
            RunEvent::Interrupted => RunEventView::Interrupted,
        }
    }
}

/// The phase after a failure.
pub open spec fn failed(context: Seq<char>, e: Seq<char>) -> RunPhaseView {
    RunPhaseView::Failed { message: context + ": "@ + e }
}

/// The exit status of a task as the exit code of a process.
pub open spec fn exit_code_of(status: u32) -> i32 {
    if status <= i32::MAX {
        status as i32
    } else {
        (status - 0x1_0000_0000) as i32
    }
}

/// What follows the manifest, or the reason why it is of no use.
pub open spec fn after_manifest(place: Result<Seq<char>, Seq<char>>) -> RunPhaseView {
    match place {
        Ok(digest) => RunPhaseView::ReadConfig { digest },
        Err(message) => RunPhaseView::Failed { message },
    }
}

/// What follows the blob that the image points at, given where it says that the
/// manifest is, and what it names as the image config if it is the manifest.
pub open spec fn after_place(
    place: Result<Option<Seq<char>>, Seq<char>>,
    config: Result<Seq<char>, Seq<char>>,
) -> RunPhaseView {
    match place {
        Ok(Some(digest)) => RunPhaseView::ReadManifest { digest },
        Ok(None) => after_manifest(config),
        Err(message) => RunPhaseView::Failed { message },
    }
}

/// What follows the blob that the image points at.
pub open spec fn after_target(blob: Seq<u8>, arch: Seq<char>) -> RunPhaseView {
    after_place(manifest_place(blob, arch), config_place(blob))
}

/// What follows the image config, given what it says.
pub open spec fn after_image(
    image: Result<(Seq<Seq<char>>, ImageConfigView), Seq<char>>,
) -> RunPhaseView {
    match image {
        Ok(image) => RunPhaseView::Prepare { parent: chain_of(image.0), config: image.1 },
        Err(message) => RunPhaseView::Failed { message },
    }
}

/// What follows the image config.
pub open spec fn after_config(blob: Seq<u8>) -> RunPhaseView {
    after_image(image_of(blob))
}

/// What follows the snapshot.
pub open spec fn after_snapshot(spec: RunSpecView, config: ImageConfigView) -> RunPhaseView {
    match layered(spec, config) {
        Ok(process) => RunPhaseView::Create { process },
        Err(message) => RunPhaseView::Failed { message },
    }
}

/// What an error means in a phase that any error ends.
pub open spec fn context_of(spec: RunSpecView, phase: RunPhaseView) -> Option<Seq<char>> {
    match phase {
        RunPhaseView::Connect => Some("connect to containerd at "@ + spec.socket),
        RunPhaseView::Pull => Some("transfer (pull) image"@),
        RunPhaseView::GetImage => Some("images.get"@),
        RunPhaseView::ReadTarget { digest } => Some("content.read "@ + digest),
        RunPhaseView::ReadManifest { digest } => Some("content.read "@ + digest),
        RunPhaseView::ReadConfig { digest } => Some("content.read "@ + digest),
        RunPhaseView::Prepare { .. } => Some("snapshots.prepare"@),
        RunPhaseView::Create { .. } => Some("containers.create"@),
        RunPhaseView::CreateTask => Some("tasks.create"@),
        RunPhaseView::StartTask => Some("tasks.start"@),
        RunPhaseView::HandleTerm => Some("install SIGTERM handler"@),
        RunPhaseView::HandleInt => Some("install SIGINT handler"@),
        _ => None,
    }
}

/// Whether a phase reads a blob.
pub open spec fn reads(phase: RunPhaseView) -> bool {
    phase is ReadTarget || phase is ReadManifest || phase is ReadConfig
}

/// The phase that follows an event. What a run of an earlier time has left, and
/// what this run leaves, is removed as well as can be: whether that succeeds
/// does not matter. An event that a phase does not wait for changes nothing.
pub open spec fn run_next(
    spec: RunSpecView,
    arch: Seq<char>,
    phase: RunPhaseView,
    event: RunEventView,
) -> RunPhaseView {
    match event {
        RunEventView::Error(e) => match context_of(spec, phase) {
            Some(context) => failed(context, e),
            None => match phase {
                RunPhaseView::Wait => RunPhaseView::Teardown { code: 1 },
                RunPhaseView::Clear => RunPhaseView::Pull,
                RunPhaseView::Teardown { code } => RunPhaseView::Finished { code },
                _ => phase,
            },
        },
        RunEventView::ChunkError(e) => if reads(phase) {
            failed("read content chunk"@, e)
        } else {
            phase
        },
        RunEventView::Done => match phase {
            RunPhaseView::Connect => RunPhaseView::Clear,
            RunPhaseView::Clear => RunPhaseView::Pull,
            RunPhaseView::Pull => RunPhaseView::GetImage,
            RunPhaseView::Prepare { config, .. } => after_snapshot(spec, config),
            RunPhaseView::Create { .. } => RunPhaseView::CreateTask,
            RunPhaseView::CreateTask => RunPhaseView::StartTask,
            RunPhaseView::StartTask => RunPhaseView::HandleTerm,
            RunPhaseView::HandleTerm => RunPhaseView::HandleInt,
            RunPhaseView::HandleInt => RunPhaseView::Wait,
            RunPhaseView::Teardown { code } => RunPhaseView::Finished { code },
            _ => phase,
        },
        RunEventView::Target(d) => if phase is GetImage {
            match d {
                Some(digest) => RunPhaseView::ReadTarget { digest },
                None => RunPhaseView::Failed { message: "image has no target descriptor"@ },
            }
        } else {
            phase
        },
        RunEventView::Content(blob) => match phase {
            RunPhaseView::ReadTarget { .. } => after_target(blob, arch),
            RunPhaseView::ReadManifest { .. } => after_manifest(parsed_config_place(blob)),
            RunPhaseView::ReadConfig { .. } => after_config(blob),
            _ => phase,
        },
        RunEventView::Exited(status) => if phase is Wait {
            RunPhaseView::Teardown { code: exit_code_of(status) }
        } else {
            phase
        },
        RunEventView::Terminated => if phase is Wait {
            RunPhaseView::Teardown { code: 143 }
        } else {
            phase
        },
        RunEventView::Interrupted => if phase is Wait {
            RunPhaseView::Teardown { code: 130 }
        } else {
            phase
        },
    }
}

fn fail(context: &str, e: &str) -> (r: RunPhase)
    ensures
        r@ == failed(context@, e@),
{
    let mut message = context.to_string();
    message.append(": ");
    message.append(e);
    RunPhase::Failed { message }
}

fn fail_reading(digest: &str, e: &str) -> (r: RunPhase)
    ensures
        r@ == failed("content.read "@ + digest@, e@),
{
    let mut context = "content.read ".to_string();
    context.append(digest);
    fail(context.as_str(), e)
}

/// The phase after the manifest, given the image config that it names.
pub fn enter_config(place: Result<String, String>) -> (r: RunPhase)
    ensures
        r@ == after_manifest(text_result(place)),
{
    match place {
        Ok(digest) => RunPhase::ReadConfig { digest },
        Err(message) => RunPhase::Failed { message },
    }
}

/// The phase after the blob that the image points at, given what it says.
pub fn enter_manifest(
    place: Result<Option<String>, String>,
    config: Result<String, String>,
) -> (r: RunPhase)
    ensures
        r@ == after_place(place_result(place), text_result(config)),
{
    match place {
        Ok(Some(digest)) => RunPhase::ReadManifest { digest },
        Ok(None) => enter_config(config),
        Err(message) => RunPhase::Failed { message },
    }
}

/// The phase after the image config, given what it says of the image.
pub fn enter_snapshot(image: Result<(Vec<String>, ImageConfig), String>) -> (r: RunPhase)
    requires
        image is Ok ==> image->Ok_0.0@.len() > 0,
    ensures
        r@ == after_image(image_result(image)),
{
    match image {
        Ok((ids, config)) => RunPhase::Prepare { parent: chain_id(&ids), config },
        Err(message) => RunPhase::Failed { message },
    }
}

fn on_error(spec: &ContainerdRunSpec, phase: RunPhase, e: &str) -> (r: RunPhase)
    ensures
        forall|arch: Seq<char>|
            r@ == #[trigger] run_next(spec@, arch, phase@, RunEventView::Error(e@)),
{
    match phase {
        RunPhase::Connect => {
            let mut context = "connect to containerd at ".to_string();
            context.append(spec.socket.as_str());
            fail(context.as_str(), e)
        },
        RunPhase::Clear => RunPhase::Pull,
        RunPhase::Pull => fail("transfer (pull) image", e),
        RunPhase::GetImage => fail("images.get", e),
        RunPhase::ReadTarget { digest } => fail_reading(digest.as_str(), e),
        RunPhase::ReadManifest { digest } => fail_reading(digest.as_str(), e),
        RunPhase::ReadConfig { digest } => fail_reading(digest.as_str(), e),
        RunPhase::Prepare { .. } => fail("snapshots.prepare", e),
        RunPhase::Create { .. } => fail("containers.create", e),
        RunPhase::CreateTask => fail("tasks.create", e),
        RunPhase::StartTask => fail("tasks.start", e),
        RunPhase::HandleTerm => fail("install SIGTERM handler", e),
        RunPhase::HandleInt => fail("install SIGINT handler", e),
        RunPhase::Wait => RunPhase::Teardown { code: 1 },
        RunPhase::Teardown { code } => RunPhase::Finished { code },
        RunPhase::Finished { code } => RunPhase::Finished { code },
        RunPhase::Failed { message } => RunPhase::Failed { message },
    }
}

fn on_done(spec: &ContainerdRunSpec, phase: RunPhase) -> (r: RunPhase)
    ensures
        forall|arch: Seq<char>|
            r@ == #[trigger] run_next(spec@, arch, phase@, RunEventView::Done),
{
    match phase {
        RunPhase::Connect => RunPhase::Clear,
        RunPhase::Clear => RunPhase::Pull,
        RunPhase::Pull => RunPhase::GetImage,
        RunPhase::Prepare { config, .. } => match layer(spec, &config) {
            Ok(process) => RunPhase::Create { process },
            Err(message) => RunPhase::Failed { message },
        },
        RunPhase::Create { .. } => RunPhase::CreateTask,
        RunPhase::CreateTask => RunPhase::StartTask,
        RunPhase::StartTask => RunPhase::HandleTerm,
        RunPhase::HandleTerm => RunPhase::HandleInt,
        RunPhase::HandleInt => RunPhase::Wait,
        RunPhase::Teardown { code } => RunPhase::Finished { code },
        p => p,
    }
}

fn on_content(phase: RunPhase, blob: &Vec<u8>, arch: &str) -> (r: RunPhase)
    ensures
        forall|spec: RunSpecView|
            r@ == #[trigger] run_next(spec, arch@, phase@, RunEventView::Content(blob@)),
{
    match phase {
        RunPhase::ReadTarget { .. } => enter_manifest(find_manifest(blob, arch), find_config(blob)),
        RunPhase::ReadManifest { .. } => enter_config(parse_and_find_config(blob)),
        RunPhase::ReadConfig { .. } => enter_snapshot(read_image(blob)),
        p => p,
    }
}

fn exit_code(status: u32) -> (r: i32)
    ensures
        r == exit_code_of(status),
{
    if status <= 0x7fff_ffff {
        status as i32
    } else {
        (status as i64 - 0x1_0000_0000) as i32
    }
}

/// The phase in which a run begins.
pub fn begin() -> (r: RunPhase)
    ensures
        r@ == RunPhaseView::Connect,
{
    RunPhase::Connect
}

/// The phase that follows an event, on a machine of the architecture that images
/// call `arch`.
pub fn step(spec: &ContainerdRunSpec, arch: &str, phase: RunPhase, event: RunEvent) -> (r: RunPhase)
    ensures
        r@ == run_next(spec@, arch@, phase@, event@),
{
    match event {
        RunEvent::Done => on_done(spec, phase),
        RunEvent::Error(e) => on_error(spec, phase, e.as_str()),
        RunEvent::Content(blob) => on_content(phase, &blob, arch),
        RunEvent::ChunkError(e) => match phase {
            RunPhase::ReadTarget { .. } => fail("read content chunk", e.as_str()),
            RunPhase::ReadManifest { .. } => fail("read content chunk", e.as_str()),
            RunPhase::ReadConfig { .. } => fail("read content chunk", e.as_str()),
            p => p,
        },
        RunEvent::Target(d) => match phase {
            RunPhase::GetImage => match d {
                Some(digest) => RunPhase::ReadTarget { digest },
                None => RunPhase::Failed { message: "image has no target descriptor".to_string() },
            },
            p => p,
        },
        RunEvent::Exited(status) => match phase {
            RunPhase::Wait => RunPhase::Teardown { code: exit_code(status) },
            p => p,
        },
        RunEvent::Terminated => match phase {
            RunPhase::Wait => RunPhase::Teardown { code: 143 },
            p => p,
        },
        RunEvent::Interrupted => match phase {
            RunPhase::Wait => RunPhase::Teardown { code: 130 },
            p => p,
        },
    }
}

/// The exit code of a run that is over: its own, or 1 if it was given up.
pub open spec fn final_code(phase: RunPhaseView) -> Option<i32> {
    match phase {
        RunPhaseView::Finished { code } => Some(code),
        RunPhaseView::Failed { .. } => Some(1),
        _ => None,
    }
}

/// The exit code of a run, if it is over.
pub fn outcome(phase: &RunPhase) -> (r: Option<i32>)
    ensures
        r == final_code(phase@),
{
    match phase {
        RunPhase::Finished { code } => Some(*code),
        RunPhase::Failed { .. } => Some(1),
        _ => None,
    }
}

/// What a run reports of an event: a start, a stop by a signal, or a wait that
/// failed.
pub open spec fn report_of(spec: RunSpecView, phase: RunPhaseView, event: RunEventView) -> Option<
    Seq<char>,
> {
    match (phase, event) {
        (RunPhaseView::StartTask, RunEventView::Done) => Some(
            "containerd-run: started "@ + spec.container_id + " ("@ + spec.image + ")"@,
        ),
        (RunPhaseView::Wait, RunEventView::Error(e)) => Some("containerd-run: wait: "@ + e),
        (RunPhaseView::Wait, RunEventView::Terminated) => Some(
            "containerd-run: SIGTERM, stopping "@ + spec.container_id,
        ),
        (RunPhaseView::Wait, RunEventView::Interrupted) => Some(
            "containerd-run: SIGINT, stopping "@ + spec.container_id,
        ),
        _ => None,
    }
}

/// The line that a run reports for an event, if any.
pub fn report(spec: &ContainerdRunSpec, phase: &RunPhase, event: &RunEvent) -> (r: Option<String>)
    ensures
        r.deep_view() == report_of(spec@, phase@, event@),
{
    match (phase, event) {
        (RunPhase::StartTask, RunEvent::Done) => {
            let mut m = "containerd-run: started ".to_string();
            m.append(spec.container_id.as_str());
            m.append(" (");
            m.append(spec.image.as_str());
            m.append(")");
            Some(m)
        },
        (RunPhase::Wait, RunEvent::Error(e)) => {
            let mut m = "containerd-run: wait: ".to_string();
            m.append(e.as_str());
            Some(m)
        },
        (RunPhase::Wait, RunEvent::Terminated) => {
            let mut m = "containerd-run: SIGTERM, stopping ".to_string();
            m.append(spec.container_id.as_str());
            Some(m)
        },
        (RunPhase::Wait, RunEvent::Interrupted) => {
            let mut m = "containerd-run: SIGINT, stopping ".to_string();
            m.append(spec.container_id.as_str());
            Some(m)
        },
        _ => None,
    }
}

/// The phase after a run of events from the beginning.
pub open spec fn run_after(spec: RunSpecView, arch: Seq<char>, events: Seq<RunEventView>) -> RunPhaseView
    decreases events.len(),
{
    if events.len() == 0 {
        RunPhaseView::Connect
    } else {
        run_next(spec, arch, run_after(spec, arch, events.drop_last()), events.last())
    }
}

/// Whether a run was tearing its container down with a code at some time.
pub open spec fn torn_down(
    spec: RunSpecView,
    arch: Seq<char>,
    events: Seq<RunEventView>,
    code: i32,
) -> bool {
    exists|j: int|
        0 <= j <= events.len() && #[trigger] run_after(spec, arch, events.take(j))
            == (RunPhaseView::Teardown { code })
}

/// A run that finishes with a code has torn its container down first.
pub proof fn law_finished_runs_clean_up(
    spec: RunSpecView,
    arch: Seq<char>,
    events: Seq<RunEventView>,
    code: i32,
)
    requires
        run_after(spec, arch, events) == (RunPhaseView::Finished { code }),
    ensures
        torn_down(spec, arch, events, code),
    decreases events.len(),
{
    if events.len() > 0 {
        let before = events.drop_last();
        let p = run_after(spec, arch, before);
        assert(events.take(events.len() - 1) == before);
        if p == (RunPhaseView::Finished { code }) {
            law_finished_runs_clean_up(spec, arch, before, code);
            let j = choose|j: int|
                0 <= j <= before.len() && #[trigger] run_after(spec, arch, before.take(j))
                    == (RunPhaseView::Teardown { code });
            assert(before.take(j) == events.take(j));
            assert(run_after(spec, arch, events.take(j)) == (RunPhaseView::Teardown { code }));
        } else {
            assert(run_after(spec, arch, events.take(events.len() - 1)) == (
                RunPhaseView::Teardown { code }
            ));
        }
    }
}

/// Whether a phase can only end in removing the container.
pub open spec fn bound_to_clean_up(phase: RunPhaseView) -> bool {
    phase is Wait || phase is Teardown || phase is Finished
}

/// Once a run waits for its task, it can no longer be given up: whether the
/// task exits, waiting fails or a signal comes, the container is torn down.
pub proof fn law_started_tasks_are_cleaned_up(
    spec: RunSpecView,
    arch: Seq<char>,
    events: Seq<RunEventView>,
    k: int,
)
    requires
        0 <= k <= events.len(),
        run_after(spec, arch, events.take(k)) is Wait,
    ensures
        bound_to_clean_up(run_after(spec, arch, events)),
    decreases events.len(),
{
    assert(events.take(events.len() as int) == events);
    if k < events.len() {
        let before = events.drop_last();
        assert(before.take(k) == events.take(k));
        law_started_tasks_are_cleaned_up(spec, arch, before, k);
    }
}

/// Whether leftovers of an earlier run were cleared at some time.
pub open spec fn cleared(spec: RunSpecView, arch: Seq<char>, events: Seq<RunEventView>) -> bool {
    exists|j: int|
        0 <= j <= events.len() && #[trigger] run_after(spec, arch, events.take(j))
            == RunPhaseView::Clear
}

/// No image is pulled and no container made before leftovers of an earlier run
/// were cleared, so that a run can be repeated.
pub proof fn law_runs_start_clean(spec: RunSpecView, arch: Seq<char>, events: Seq<RunEventView>)
    requires
        !(run_after(spec, arch, events) is Connect),
        !(run_after(spec, arch, events) is Failed),
    ensures
        cleared(spec, arch, events),
    decreases events.len(),
{
    if events.len() > 0 {
        let before = events.drop_last();
        assert(events.take(events.len() as int) == events);
        assert(events.take(events.len() - 1) == before);
        let p = run_after(spec, arch, before);
        if p is Connect {
            assert(run_after(spec, arch, events.take(events.len() as int)) == RunPhaseView::Clear);
        } else {
            law_runs_start_clean(spec, arch, before);
            let j = choose|j: int|
                0 <= j <= before.len() && #[trigger] run_after(spec, arch, before.take(j))
                    == RunPhaseView::Clear;
            assert(before.take(j) == events.take(j));
            assert(run_after(spec, arch, events.take(j)) == RunPhaseView::Clear);
        }
    }
}

} // verus!
