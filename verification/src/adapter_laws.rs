//! What the adapter hands over, reports and starts, in terms of what it was given.

use crate::adapter::{
    reply_result, request_as, request_model, result_model, submission_model, submits, AdapterModel,
    CommandReply,
};
use crate::command::{
    command_name, is_uuid_text, CommandModel, SidecarCommand, SidecarCommandEnvelope,
    SidecarCommandKind,
};
use crate::error::{error_message, PhotonError};
use crate::json::JsonValue;
use crate::launch::{launch_command, launch_env, EnvVar};
use crate::outbound::plan_model;
use crate::string_map::entries_map;
use crate::text::joined;
use vstd::prelude::*;

verus! {

/// A kind of command is named by its own words in lower case, with underscores between them.
pub proof fn law_wire_names(kind: SidecarCommandKind)
    ensures
        command_name(kind) == match kind {
            SidecarCommandKind::SendText => "send"@ + "_"@ + "text"@,
            SidecarCommandKind::SendReply => "send"@ + "_"@ + "reply"@,
            SidecarCommandKind::SendFile => "send"@ + "_"@ + "file"@,
            SidecarCommandKind::AddReaction => "add"@ + "_"@ + "reaction"@,
            SidecarCommandKind::RemoveReaction => "remove"@ + "_"@ + "reaction"@,
            SidecarCommandKind::StartTyping => "start"@ + "_"@ + "typing"@,
            SidecarCommandKind::StopTyping => "stop"@ + "_"@ + "typing"@,
            SidecarCommandKind::Health => "health"@,
            SidecarCommandKind::Shutdown => "shutdown"@,
        },
{
    reveal_strlit("send_text");
    reveal_strlit("send_reply");
    reveal_strlit("send_file");
    reveal_strlit("add_reaction");
    reveal_strlit("remove_reaction");
    reveal_strlit("start_typing");
    reveal_strlit("stop_typing");
    reveal_strlit("send");
    reveal_strlit("add");
    reveal_strlit("remove");
    reveal_strlit("start");
    reveal_strlit("stop");
    reveal_strlit("_");
    reveal_strlit("text");
    reveal_strlit("reply");
    reveal_strlit("file");
    reveal_strlit("reaction");
    reveal_strlit("typing");
    match kind {
        SidecarCommandKind::SendText => {
            assert(command_name(kind) =~= "send"@ + "_"@ + "text"@);
        },
        SidecarCommandKind::SendReply => {
            assert(command_name(kind) =~= "send"@ + "_"@ + "reply"@);
        },
        SidecarCommandKind::SendFile => {
            assert(command_name(kind) =~= "send"@ + "_"@ + "file"@);
        },
        SidecarCommandKind::AddReaction => {
            assert(command_name(kind) =~= "add"@ + "_"@ + "reaction"@);
        },
        SidecarCommandKind::RemoveReaction => {
            assert(command_name(kind) =~= "remove"@ + "_"@ + "reaction"@);
        },
        SidecarCommandKind::StartTyping => {
            assert(command_name(kind) =~= "start"@ + "_"@ + "typing"@);
        },
        SidecarCommandKind::StopTyping => {
            assert(command_name(kind) =~= "stop"@ + "_"@ + "typing"@);
        },
        _ => {},
    }
}

/// What goes out is what was planned: a planned command goes out as it is, under a fresh id, as long
/// as there is a sidecar, and without one the error names the adapter; where nothing is planned
/// nothing goes out, and an error in the plan is reported as it is.
pub proof fn law_what_is_planned_goes_out(
    adapter: AdapterModel,
    plan: Result<Option<SidecarCommand>, PhotonError>,
    submission: Result<Option<SidecarCommandEnvelope>, PhotonError>,
)
    requires
        submits(adapter, plan_model(plan), submission_model(submission)),
    ensures
        plan matches Ok(Some(command)) ==> if adapter.running {
            &&& submission matches Ok(Some(envelope))
            &&& is_uuid_text(envelope.id@)
            &&& envelope.command == command.command
            &&& envelope.payload@ == command.payload@
        } else {
            &&& submission matches Err(error)
            &&& error matches PhotonError::NotRunning { adapter: named }
            &&& named@ == adapter.runtime_key
        },
        plan matches Ok(None) ==> submission matches Ok(None),
        plan matches Err(error) ==> (submission matches Err(reported) && reported@ == error@),
{
}

/// The same of a plan that is known by its model only.
pub proof fn law_planned_command_goes_out(
    adapter: AdapterModel,
    command: CommandModel,
    submission: Result<Option<SidecarCommandEnvelope>, PhotonError>,
)
    requires
        adapter.running,
        submits(adapter, Ok(Some(command)), submission_model(submission)),
    ensures
        submission matches Ok(Some(envelope)) && envelope.command == command.command
            && envelope.payload@ == command.payload,
{
}

/// A command is put under the id that is drawn for it and changed in nothing, as long as there is a
/// sidecar; without one the error names the adapter.
pub proof fn law_command_is_put_under_its_id(
    adapter: AdapterModel,
    id: Seq<char>,
    command: SidecarCommandKind,
    payload: JsonValue,
    request: Result<SidecarCommandEnvelope, PhotonError>,
)
    requires
        request_model(request) == request_as(
            adapter,
            id,
            CommandModel { command, payload: payload@ },
        ),
    ensures
        adapter.running ==> {
            &&& request matches Ok(envelope)
            &&& envelope.id@ == id
            &&& envelope.command == command
            &&& envelope.payload@ == payload@
        },
        !adapter.running ==> {
            &&& request matches Err(error)
            &&& error matches PhotonError::NotRunning { adapter: named }
            &&& named@ == adapter.runtime_key
        },
{
}

/// The caller of a command is told of success exactly if the command was answered with it. Else the
/// caller is told the error that it was answered with, or that it could not be handed over, was
/// dropped, or was not answered in time, by which adapter.
pub proof fn law_callers_are_told(
    runtime_key: Seq<char>,
    reply: CommandReply,
    result: Result<(), PhotonError>,
)
    requires
        result_model(result) == reply_result(runtime_key, reply),
    ensures
        result is Ok <==> (reply matches CommandReply::Answered(answer) && answer is Ok),
        reply matches CommandReply::Answered(Err(reason)) ==> (
        result matches Err(PhotonError::Rejected { reason: told }) && told@ == reason@),
        reply matches CommandReply::SendFailed(detail) ==> (
        result matches Err(PhotonError::SendFailed { adapter, detail: told }) && adapter@
            == runtime_key && told@ == detail@),
        reply matches CommandReply::Dropped(detail) ==> (
        result matches Err(PhotonError::ResponseDropped { adapter, detail: told }) && adapter@
            == runtime_key && told@ == detail@),
        reply is TimedOut ==> (result matches Err(PhotonError::TimedOut { adapter }) && adapter@
            == runtime_key),
{
}

/// Every error says what went wrong, with the adapter in quotation marks and the detail at the end
/// where it has them; an answer of the sidecar is passed on word for word.
pub proof fn law_errors_say_what_went_wrong(error: PhotonError)
    ensures
        match error {
            PhotonError::MissingSpaceId => error_message(error@)
                == "missing photon_space_id in metadata"@,
            PhotonError::EmptyBroadcastTarget => error_message(error@)
                == "photon broadcast target can't be empty"@,
            PhotonError::Serialization => error_message(error@)
                == "failed to serialize photon sidecar command"@,
            PhotonError::NotRunning { adapter } => error_message(error@)
                == "photon sidecar is not running for adapter '"@ + adapter@ + "'"@,
            PhotonError::SendFailed { adapter, detail } => error_message(error@)
                == "failed to send command to photon sidecar for '"@ + adapter@ + "': "@ + detail@,
            PhotonError::Rejected { reason } => error_message(error@) == reason@,
            PhotonError::ResponseDropped { adapter, detail } => error_message(error@)
                == "photon sidecar response channel dropped for '"@ + adapter@ + "': "@ + detail@,
            PhotonError::TimedOut { adapter } => error_message(error@)
                == "photon sidecar command timed out for '"@ + adapter@ + "'"@,
        },
{
}

/// A configured command is run by a login shell as it is; else the package is started with Bun.
pub proof fn law_what_is_started(command: Option<String>, program: String, args: Vec<String>)
    requires
        (program@, args.deep_view()) == launch_command(command.deep_view()),
    ensures
        args@.len() == 2,
        command matches Some(text) ==> program@ == "sh"@ && args@[0]@ == "-lc"@ && args@[1]@
            == text@,
        command is None ==> program@ == "bun"@ && args@[0]@ == "run"@ && args@[1]@ == "start"@,
{
    let given = args.deep_view();
    assert(given.len() == args@.len());
    assert(given[0] == args@[0]@);
    assert(given[1] == args@[1]@);
}

/// The sidecar finds the project, its secret and the key of the adapter in its environment, each
/// under its own name, and the senders who are let through, with commas between them, exactly if
/// there are any; nothing else is added.
pub proof fn law_environment_of_sidecar(
    project_id: Seq<char>,
    project_secret: Seq<char>,
    runtime_key: Seq<char>,
    dm_allow_list: Seq<Seq<char>>,
    env: Vec<EnvVar>,
)
    requires
        env@.map_values(|var: EnvVar| var@) == launch_env(
            project_id,
            project_secret,
            runtime_key,
            dm_allow_list,
        ),
    ensures
        ({
            let found = entries_map(
                env@.map_values(|var: EnvVar| (var.name@, var.value@)),
            );
            let list = "PHOTON_DM_ALLOW_LIST"@;
            &&& found.get("PHOTON_PROJECT_ID"@) == Some(project_id)
            &&& found.get("PHOTON_PROJECT_SECRET"@) == Some(project_secret)
            &&& found.get("PHOTON_ADAPTER_KEY"@) == Some(runtime_key)
            &&& dm_allow_list.len() == 0 ==> !found.contains_key(list) && env@.len() == 3
            &&& dm_allow_list.len() > 0 ==> found.get(list) == Some(joined(dm_allow_list, ","@))
                && env@.len() == 4
        }),
{
    reveal_strlit("PHOTON_PROJECT_ID");
    reveal_strlit("PHOTON_PROJECT_SECRET");
    reveal_strlit("PHOTON_ADAPTER_KEY");
    reveal_strlit("PHOTON_DM_ALLOW_LIST");
    assert("PHOTON_PROJECT_ID"@.len() == 17 && "PHOTON_PROJECT_SECRET"@.len() == 21);
    assert("PHOTON_ADAPTER_KEY"@.len() == 18 && "PHOTON_DM_ALLOW_LIST"@.len() == 20);
    let vars = env@.map_values(|var: EnvVar| (var.name@, var.value@));
    let models = env@.map_values(|var: EnvVar| var@);
    assert(models.len() == env@.len());
    assert forall|i: int| 0 <= i < vars.len() implies vars[i] == models[i] by {
        assert(models[i] == env@[i]@);
    }
    assert(vars =~= models);
    reveal_with_fuel(entries_map, 5);
    if dm_allow_list.len() == 0 {
        assert(vars.drop_last().drop_last().drop_last() =~= Seq::empty());
    } else {
        assert(vars.drop_last().drop_last().drop_last().drop_last() =~= Seq::empty());
    }
}

} // verus!
