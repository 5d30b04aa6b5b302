//! The adapter between the bot and Photon.

use crate::allow_list::{normalized, AllowList};
use crate::clock::{current_time, Timestamp};
use crate::command::{
    fresh_id, is_uuid_text, CommandModel, EnvelopeModel, SidecarCommand, SidecarCommandEnvelope,
    SidecarCommandKind,
};
use crate::error::{ErrorModel, PhotonError};
use crate::inbound::{accepts, convert_inbound_at, converted};
use crate::json::{JsonModel, JsonValue};
use crate::launch::{launch_command, launch_env, sidecar_launch, EnvVar, SidecarLaunch, WorkingDir};
use crate::message::{
    HistoryMessage, InboundMessage, OutboundResponse, ResponseModel, StatusUpdate,
};
use crate::outbound::{
    broadcast_plan, find_message_id, find_refers_to_bot, find_space, is_encodable,
    law_broadcast_plan_is_canonical, law_response_plan_is_canonical, message_id_of, plan_broadcast,
    plan_model, plan_response, plan_status, plan_text, refers_to_bot, response_plan, space_of,
    status_plan, text_plan,
};
use crate::sidecar::SidecarInboundPayload;
use crate::string_map::StringMap;
use crate::supervisor::{
    Supervisor, SupervisorModel, SupervisorPhase, INITIAL_RECONNECT_BACKOFF_SECS,
};
use crate::text::trimmed;
use std::path::PathBuf;
use vstd::prelude::*;

verus! {

/// Photon adapter state.
pub struct PhotonAdapter {
    runtime_key: String,
    project_id: String,
    project_secret: String,
    sidecar_command: Option<String>,
    sidecar_working_dir: Option<PathBuf>,
    dm_allowed_users: AllowList,
    stream_buffers: StringMap<String>,
    running: bool,
}

/// What a `PhotonAdapter` stands for: `streams` are the texts that are being streamed, by
/// conversation, and `running` says whether there is a sidecar that takes commands.
#[verifier::ext_equal]
pub struct AdapterModel {
    pub runtime_key: Seq<char>,
    pub project_id: Seq<char>,
    pub project_secret: Seq<char>,
    pub sidecar_command: Option<Seq<char>>,
    pub sidecar_working_dir: Option<PathBuf>,
    pub dm_allowed_users: Seq<Seq<char>>,
    pub streams: Map<Seq<char>, Seq<char>>,
    pub running: bool,
}

impl View for PhotonAdapter {
    type V = AdapterModel;

    closed spec fn view(&self) -> AdapterModel {
        AdapterModel {
            runtime_key: self.runtime_key@,
            project_id: self.project_id@,
            project_secret: self.project_secret@,
            sidecar_command: self.sidecar_command.deep_view(),
            sidecar_working_dir: self.sidecar_working_dir,
            dm_allowed_users: self.dm_allowed_users@,
            streams: self.stream_buffers@,
            running: self.running,
        }
    }
}

/// What came of waiting for the answer to a command.
#[derive(Debug)]
pub enum CommandReply {
    /// The command could not be handed over.
    SendFailed(String),
    /// It was answered.
    Answered(Result<(), String>),
    /// It was dropped without an answer.
    Dropped(String),
    /// There was no answer in time.
    TimedOut,
}

/// What the caller of a command on the adapter `adapter` is told.
pub open spec fn reply_result(adapter: Seq<char>, reply: CommandReply) -> Result<(), ErrorModel> {
    match reply {
        CommandReply::SendFailed(detail) => Err(
            ErrorModel::SendFailed { adapter, detail: detail@ },
        ),
        CommandReply::Answered(Ok(())) => Ok(()),
        CommandReply::Answered(Err(reason)) => Err(ErrorModel::Rejected { reason: reason@ }),
        CommandReply::Dropped(detail) => Err(
            ErrorModel::ResponseDropped { adapter, detail: detail@ },
        ),
        CommandReply::TimedOut => Err(ErrorModel::TimedOut { adapter }),
    }
}

/// What a result with an error stands for.
pub open spec fn result_model<T>(result: Result<T, PhotonError>) -> Result<T, ErrorModel> {
    match result {
        Ok(value) => Ok(value),
        Err(error) => Err(error@),
    }
}

/// What a command to be sent, or nothing, or an error stands for.
pub open spec fn submission_model(
    submission: Result<Option<SidecarCommandEnvelope>, PhotonError>,
) -> Result<Option<EnvelopeModel>, ErrorModel> {
    match submission {
        Ok(Some(envelope)) => Ok(Some(envelope@)),
        Ok(None) => Ok(None),
        Err(error) => Err(error@),
    }
}

/// The request that a command makes of the adapter's sidecar under the id `id`; an error if there
/// is no sidecar to take it.
pub open spec fn request_as(adapter: AdapterModel, id: Seq<char>, command: CommandModel) -> Result<
    EnvelopeModel,
    ErrorModel,
> {
    if adapter.running {
        Ok(EnvelopeModel { id, command: command.command, payload: command.payload })
    } else {
        Err(ErrorModel::NotRunning { adapter: adapter.runtime_key })
    }
}

/// What a command to be sent, or an error, stands for.
pub open spec fn request_model(request: Result<SidecarCommandEnvelope, PhotonError>) -> Result<
    EnvelopeModel,
    ErrorModel,
> {
    match request {
        Ok(envelope) => Ok(envelope@),
        Err(error) => Err(error@),
    }
}

/// Whether `envelope` carries `command` under a fresh id.
pub open spec fn carries(envelope: EnvelopeModel, command: CommandModel) -> bool {
    &&& is_uuid_text(envelope.id)
    &&& envelope.command == command.command
    &&& envelope.payload == command.payload
}

/// Whether `submission` is what the adapter makes of a plan: a planned command goes out under a
/// fresh id, unless there is no sidecar to take it.
pub open spec fn submits(
    adapter: AdapterModel,
    plan: Result<Option<CommandModel>, ErrorModel>,
    submission: Result<Option<EnvelopeModel>, ErrorModel>,
) -> bool {
    match plan {
        Ok(Some(command)) => if adapter.running {
            submission matches Ok(Some(envelope)) && carries(envelope, command)
        } else {
            submission == Err::<Option<EnvelopeModel>, ErrorModel>(
                ErrorModel::NotRunning { adapter: adapter.runtime_key },
            )
        },
        Ok(None) => submission == Ok::<Option<EnvelopeModel>, ErrorModel>(None),
        Err(error) => submission == Err::<Option<EnvelopeModel>, ErrorModel>(error),
    }
}

impl PhotonAdapter {
    /// No conversation is streamed twice, and the allow-list is in order.
    pub closed spec fn wf(&self) -> bool {
        self.stream_buffers.wf() && self.dm_allowed_users.wf()
    }

    /// An adapter without a running sidecar. Names on the allow-list count without the white space
    /// around them.
    pub fn new<K: Into<String>, P: Into<String>, S: Into<String>>(
        runtime_key: K,
        project_id: P,
        project_secret: S,
        sidecar_command: Option<String>,
        sidecar_working_dir: Option<PathBuf>,
        dm_allowed_users: Vec<String>,
    ) -> (adapter: Self)
        ensures
            adapter.wf(),
            exists|key: String| #[trigger]
                call_ensures(K::into, (runtime_key,), key) && adapter@.runtime_key == key@,
            exists|id: String| #[trigger]
                call_ensures(P::into, (project_id,), id) && adapter@.project_id == id@,
            exists|secret: String| #[trigger]
                call_ensures(S::into, (project_secret,), secret) && adapter@.project_secret
                    == secret@,
            adapter@.sidecar_command == sidecar_command.deep_view(),
            adapter@.sidecar_working_dir == sidecar_working_dir,
            adapter@.dm_allowed_users == normalized(dm_allowed_users.deep_view()),
            adapter@.streams == Map::<Seq<char>, Seq<char>>::empty(),
            !adapter@.running,
    {
        let runtime_key = runtime_key.into();
        let project_id = project_id.into();
        let project_secret = project_secret.into();
        PhotonAdapter {
            runtime_key,
            project_id,
            project_secret,
            sidecar_command,
            sidecar_working_dir,
            dm_allowed_users: AllowList::new(dm_allowed_users),
            stream_buffers: StringMap::new(),
            running: false,
        }
    }

    /// The key of this adapter.
    pub fn name(&self) -> (name: &str)
        ensures
            name@ == self@.runtime_key,
    {
        self.runtime_key.as_str()
    }

    /// The space that an answer to a message goes to.
    pub fn extract_space_id(&self, message: &InboundMessage) -> (space: Result<
        String,
        PhotonError,
    >)
        ensures
            match space_of(message@) {
                Some(id) => space matches Ok(found) && found@ == id,
                None => space == Err::<String, PhotonError>(PhotonError::MissingSpaceId),
            },
    {
        match find_space(message) {
            Some(space) => Ok(space),
            None => Err(PhotonError::MissingSpaceId),
        }
    }

    /// The id under which Photon knows a message.
    pub fn extract_message_id(&self, message: &InboundMessage) -> (id: Option<String>)
        ensures
            id.deep_view() == message_id_of(message@),
    {
        find_message_id(message)
    }

    /// Whether Photon marked a message as one that mentions the bot or replies to it.
    pub fn inbound_expects_inline_reply_thread(&self, message: &InboundMessage) -> (expected: bool)
        ensures
            expected == refers_to_bot(message@),
    {
        find_refers_to_bot(message)
    }

    /// What the bot is told of a message, if it is told of it at all. A message without a valid
    /// time of its own is given the present time, of which nothing is known here:
    /// `convert_inbound_at` says what is made of each reading of the clock.
    pub fn convert_inbound(
        runtime_key: &str,
        dm_allow_list: &AllowList,
        payload: SidecarInboundPayload,
    ) -> (message: Option<InboundMessage>)
        ensures
            message is Some <==> accepts(dm_allow_list@, payload@),
            message is Some ==> {
                &&& message->0.metadata.wf()
                &&& exists|now: Timestamp|
                    message->0@ == #[trigger] converted(runtime_key@, payload@, now)
            },
    {
        convert_inbound_at(runtime_key, dm_allow_list, payload, current_time())
    }

    /// Puts a command into an envelope with the id `id`, for the sidecar to answer.
    pub fn send_sidecar_command_as(
        &self,
        id: String,
        command: SidecarCommandKind,
        payload: JsonValue,
    ) -> (request: Result<SidecarCommandEnvelope, PhotonError>)
        ensures
            request_model(request) == request_as(
                self@,
                id@,
                CommandModel { command, payload: payload@ },
            ),
    {
        if self.running {
            Ok(SidecarCommandEnvelope { id, command, payload })
        } else {
            Err(PhotonError::NotRunning { adapter: self.runtime_key.clone() })
        }
    }

    /// Puts a command into an envelope with a fresh id, for the sidecar to answer. Which id is drawn
    /// rests on chance: `send_sidecar_command_as` says what is made of each of them.
    pub fn send_sidecar_command(&self, command: SidecarCommandKind, payload: JsonValue) -> (request:
        Result<SidecarCommandEnvelope, PhotonError>)
        ensures
            exists|id: Seq<char>| #[trigger]
                is_uuid_text(id) && request_model(request) == request_as(
                    self@,
                    id,
                    CommandModel { command, payload: payload@ },
                ),
    {
        self.send_sidecar_command_as(fresh_id(), command, payload)
    }

    /// What the caller of a command is told, given what came of waiting for the answer.
    pub fn command_result(&self, reply: CommandReply) -> (result: Result<(), PhotonError>)
        ensures
            result_model(result) == reply_result(self@.runtime_key, reply),
    {
        let adapter = self.runtime_key.clone();
        match reply {
            CommandReply::SendFailed(detail) => Err(PhotonError::SendFailed { adapter, detail }),
            CommandReply::Answered(Ok(())) => Ok(()),
            CommandReply::Answered(Err(reason)) => Err(PhotonError::Rejected { reason }),
            CommandReply::Dropped(detail) => Err(
                PhotonError::ResponseDropped { adapter, detail },
            ),
            CommandReply::TimedOut => Err(PhotonError::TimedOut { adapter }),
        }
    }

    /// Makes a command of a plan.
    fn submit(&self, plan: Result<Option<SidecarCommand>, PhotonError>) -> (submission: Result<
        Option<SidecarCommandEnvelope>,
        PhotonError,
    >)
        ensures
            submits(self@, plan_model(plan), submission_model(submission)),
    {
        match plan {
            Ok(Some(command)) => match self.send_sidecar_command(
                command.command,
                command.payload,
            ) {
                Ok(envelope) => Ok(Some(envelope)),
                Err(error) => Err(error),
            },
            Ok(None) => Ok(None),
            Err(error) => Err(error),
        }
    }

    /// Makes the command that says `text` in answer to a message. It is threaded only if
    /// `force_thread_reply` asks for it, or the message mentions the bot or replies to it.
    pub fn send_photon_text(
        &self,
        message: &InboundMessage,
        text: &str,
        force_thread_reply: bool,
    ) -> (submission: Result<Option<SidecarCommandEnvelope>, PhotonError>)
        ensures
            submits(
                self@,
                text_plan(message@, text@, force_thread_reply),
                submission_model(submission),
            ),
            submission matches Ok(Some(envelope)) ==> envelope.payload@.canonical(),
    {
        proof {
            let response = if force_thread_reply {
                ResponseModel::ThreadReply { text: text@ }
            } else {
                ResponseModel::Text(text@)
            };
            law_response_plan_is_canonical(self@.streams, message@, response);
        }
        self.submit(plan_text(message, text.to_string(), force_thread_reply))
    }

    /// Makes the command that answers a message, if it takes one. Streamed text is kept until the
    /// stream ends.
    pub fn respond(&mut self, message: &InboundMessage, response: OutboundResponse) -> (submission:
        Result<Option<SidecarCommandEnvelope>, PhotonError>)
        requires
            space_of(message@) is Some ==> is_encodable(response@),
        ensures
            old(self).wf() ==> final(self).wf(),
            final(self)@ == (AdapterModel {
                streams: response_plan(old(self)@.streams, message@, response@).0,
                ..old(self)@
            }),
            submits(
                old(self)@,
                response_plan(old(self)@.streams, message@, response@).1,
                submission_model(submission),
            ),
            submission matches Ok(Some(envelope)) ==> envelope.payload@.canonical(),
    {
        proof {
            law_response_plan_is_canonical(self@.streams, message@, response@);
        }
        let plan = plan_response(&mut self.stream_buffers, message, response);
        self.submit(plan)
    }

    /// Makes the command that shows a status where a message came from.
    pub fn send_status(&self, message: &InboundMessage, status: StatusUpdate) -> (submission:
        Result<Option<SidecarCommandEnvelope>, PhotonError>)
        ensures
            submits(self@, status_plan(message@, status), submission_model(submission)),
            submission matches Ok(Some(envelope)) ==> envelope.payload@.canonical(),
    {
        proof {
            law_response_plan_is_canonical(self@.streams, message@, ResponseModel::Status(status));
        }
        self.submit(plan_status(message, status))
    }

    /// Makes the command that says something in the space `target` unasked, if it takes one.
    pub fn broadcast(&self, target: &str, response: OutboundResponse) -> (submission: Result<
        Option<SidecarCommandEnvelope>,
        PhotonError,
    >)
        requires
            trimmed(target@).len() > 0 ==> is_encodable(response@),
        ensures
            submits(self@, broadcast_plan(target@, response@), submission_model(submission)),
            submission matches Ok(Some(envelope)) ==> envelope.payload@.canonical(),
    {
        proof {
            law_broadcast_plan_is_canonical(target@, response@);
        }
        self.submit(plan_broadcast(target, response))
    }

    /// The earlier messages of a conversation: Photon hands out none.
    pub fn fetch_history(&self, _message: &InboundMessage, _limit: usize) -> (history: Vec<
        HistoryMessage,
    >)
        ensures
            history@.len() == 0,
    {
        Vec::new()
    }

    /// Makes the command that asks the sidecar whether it is well.
    pub fn health_check(&self) -> (request: Result<SidecarCommandEnvelope, PhotonError>)
        ensures
            exists|id: Seq<char>| #[trigger]
                is_uuid_text(id) && request_model(request) == request_as(
                    self@,
                    id,
                    CommandModel { command: SidecarCommandKind::Health, payload: JsonModel::Null },
                ),
    {
        self.send_sidecar_command(SidecarCommandKind::Health, JsonValue::Null)
    }

    /// How the sidecar is started.
    pub fn launch(&self) -> (launch: SidecarLaunch<'_>)
        ensures
            (launch.program@, launch.args.deep_view()) == launch_command(self@.sidecar_command),
            launch.env@.map_values(|var: EnvVar| var@) == launch_env(
                self@.project_id,
                self@.project_secret,
                self@.runtime_key,
                self@.dm_allowed_users,
            ),
            match self@.sidecar_working_dir {
                Some(dir) => launch.working_dir == WorkingDir::Configured(&dir),
                None => launch.working_dir matches WorkingDir::Bundled(dir) && dir@
                    == "packages/photon-bridge"@,
            },
    {
        sidecar_launch(
            &self.runtime_key,
            &self.project_id,
            &self.project_secret,
            &self.sidecar_command,
            &self.sidecar_working_dir,
            &self.dm_allowed_users,
        )
    }

    /// Starts to take commands, for a sidecar in the care of the supervisor that is handed out.
    pub fn start(&mut self) -> (supervisor: Supervisor)
        ensures
            old(self).wf() ==> final(self).wf(),
            final(self)@ == (AdapterModel { running: true, ..old(self)@ }),
            supervisor@ == (SupervisorModel {
                runtime_key: old(self)@.runtime_key,
                dm_allow_list: old(self)@.dm_allowed_users,
                phase: SupervisorPhase::Polling,
                reconnect_backoff: INITIAL_RECONNECT_BACKOFF_SECS,
                pending: Seq::empty(),
                writing: None,
            }),
    {
        self.running = true;
        Supervisor::new(self.runtime_key.clone(), self.dm_allowed_users.clone())
    }

    /// Takes no more commands, and forgets the texts that are being streamed. Tells whether there
    /// is a supervisor to be told.
    pub fn shutdown(&mut self) -> (was_running: bool)
        ensures
            old(self).wf() ==> final(self).wf(),
            was_running == old(self)@.running,
            final(self)@ == (AdapterModel {
                streams: Map::empty(),
                running: false,
                ..old(self)@
            }),
    {
        let was_running = self.running;
        self.running = false;
        self.stream_buffers.clear();
        was_running
    }
}

} // verus!
