//! Control-protocol responses: their canonical encoding, and the
//! dispatch of decoded commands onto the supervisor.
//!
//! Every command receives exactly one response frame.  A response is
//! an object holding all seven fields in canonical (sorted) order,
//! with `null` for the fields the originating command does not
//! populate; on failure only `success` and `error` carry values.
//! [`spec_encode_response`] defines the encoding; the executable
//! encoder produces exactly that text, and the decoder of
//! [`crate::parse`] reads the same grammar back.

use vstd::prelude::*;

use crate::config::{AppConfig, AppConfigV, Rect};
use crate::position_store::PositionStore;
use crate::supervisor::{consistent, AppController, SpawnError};
use crate::text::{
    push_escaped, push_str_chars, push_u32_chars, spec_escape, spec_u32_digits, str_to_char_vec,
};

verus! {

/// Mathematical value of an [`AppControllerResponse`].
pub ghost struct AppControllerResponseV {
    pub success: bool,
    pub pid: Option<u32>,
    pub screen_width: Option<u32>,
    pub screen_height: Option<u32>,
    pub config: Option<AppConfigV>,
    pub process_ids: Option<Seq<(u32, AppConfigV)>>,
    pub error: Option<Seq<char>>,
}

/// One response frame, before encoding: `success`, then exactly the
/// fields relevant to the originating command.
#[derive(Debug)]
pub struct AppControllerResponse {
    pub success: bool,
    pub pid: Option<u32>,
    pub screen_width: Option<u32>,
    pub screen_height: Option<u32>,
    pub config: Option<AppConfig>,
    pub process_ids: Option<Vec<(u32, AppConfig)>>,
    pub error: Option<String>,
}

/// The pair views of a process listing.
pub open spec fn procs_view(l: Seq<(u32, AppConfig)>) -> Seq<(u32, AppConfigV)> {
    Seq::new(l.len(), |k: int| (l[k].0, l[k].1@))
}

impl View for AppControllerResponse {
    type V = AppControllerResponseV;

    open spec fn view(&self) -> AppControllerResponseV {
        AppControllerResponseV {
            success: self.success,
            pid: self.pid,
            screen_width: self.screen_width,
            screen_height: self.screen_height,
            config: match self.config {
                Some(ref c) => Some(c@),
                None => None,
            },
            process_ids: match self.process_ids {
                Some(ref l) => Some(procs_view(l@)),
                None => None,
            },
            error: match self.error {
                Some(ref e) => Some(e@),
                None => None,
            },
        }
    }
}

/// A quoted, escaped protocol string.
pub open spec fn spec_encode_string(s: Seq<char>) -> Seq<char> {
    seq!['"'] + spec_escape(s) + seq!['"']
}

fn push_string(s: &Vec<char>, out: &mut Vec<char>)
    ensures
        final(out)@ == old(out)@ + spec_encode_string(s@),
{
    out.push('"');
    push_escaped(s, out);
    out.push('"');
    proof {
        assert(final(out)@ =~= old(out)@ + spec_encode_string(s@));
    }
}

/// A rectangle object in canonical field order.
pub open spec fn spec_encode_rect(r: Rect) -> Seq<char> {
    "{\"height\":"@ + spec_u32_digits(r.height) + ",\"width\":"@ + spec_u32_digits(r.width)
        + ",\"x\":"@ + spec_u32_digits(r.x) + ",\"y\":"@ + spec_u32_digits(r.y) + "}"@
}

fn push_rect(r: &Rect, out: &mut Vec<char>)
    ensures
        final(out)@ == old(out)@ + spec_encode_rect(*r),
{
    push_str_chars("{\"height\":", out);
    push_u32_chars(r.height, out);
    push_str_chars(",\"width\":", out);
    push_u32_chars(r.width, out);
    push_str_chars(",\"x\":", out);
    push_u32_chars(r.x, out);
    push_str_chars(",\"y\":", out);
    push_u32_chars(r.y, out);
    push_str_chars("}", out);
    proof {
        assert(final(out)@ =~= old(out)@ + spec_encode_rect(*r));
    }
}

/// The comma-joined items of a string array, from index `i` on.
pub open spec fn spec_encode_args_from(args: Seq<Seq<char>>, i: int) -> Seq<char>
    decreases args.len() - i,
{
    if i < 0 || i >= args.len() {
        Seq::empty()
    } else if i == args.len() - 1 {
        spec_encode_string(args[i])
    } else {
        spec_encode_string(args[i]) + ","@ + spec_encode_args_from(args, i + 1)
    }
}

fn push_args(args: &Vec<String>, out: &mut Vec<char>)
    ensures
        final(out)@ == old(out)@ + spec_encode_args_from(crate::parse::strs_view(args@), 0),
{
    let ghost argsv = crate::parse::strs_view(args@);
    let mut i: usize = 0;
    while i < args.len()
        invariant
            argsv == crate::parse::strs_view(args@),
            argsv.len() == args@.len(),
            i <= args@.len(),
            out@ + spec_encode_args_from(argsv, i as int) == old(out)@ + spec_encode_args_from(
                argsv,
                0,
            ),
        decreases args@.len() - i,
    {
        let chars = str_to_char_vec(args[i].as_str());
        push_string(&chars, out);
        if i + 1 < args.len() {
            push_str_chars(",", out);
            proof {
                assert(spec_encode_args_from(argsv, i as int) =~= spec_encode_string(argsv[i as int])
                    + ","@ + spec_encode_args_from(argsv, i + 1));
                assert(out@ + spec_encode_args_from(argsv, i + 1) =~= old(out)@
                    + spec_encode_args_from(argsv, 0));
            }
        } else {
            proof {
                assert(spec_encode_args_from(argsv, i as int) =~= spec_encode_string(
                    argsv[i as int],
                ));
                assert(spec_encode_args_from(argsv, i + 1) =~= Seq::<char>::empty());
                assert(out@ + spec_encode_args_from(argsv, i + 1) =~= old(out)@
                    + spec_encode_args_from(argsv, 0));
            }
        }
        i += 1;
    }
    proof {
        assert(spec_encode_args_from(argsv, args@.len() as int) =~= Seq::<char>::empty());
        assert(final(out)@ =~= final(out)@ + spec_encode_args_from(argsv, args@.len() as int));
    }
}

/// An application configuration object in canonical field order.
pub open spec fn spec_encode_config(c: AppConfigV) -> Seq<char> {
    "{\"area\":"@ + spec_encode_rect(c.area) + ",\"args\":["@ + spec_encode_args_from(c.args, 0)
        + "],\"executable\":"@ + spec_encode_string(c.executable) + "}"@
}

fn push_config(c: &AppConfig, out: &mut Vec<char>)
    ensures
        final(out)@ == old(out)@ + spec_encode_config(c@),
{
    push_str_chars("{\"area\":", out);
    push_rect(&c.area, out);
    push_str_chars(",\"args\":[", out);
    push_args(&c.args, out);
    push_str_chars("],\"executable\":", out);
    let chars = str_to_char_vec(c.executable.as_str());
    push_string(&chars, out);
    push_str_chars("}", out);
    proof {
        assert(crate::parse::strs_view(c.args@) =~= c@.args);
        assert(final(out)@ =~= old(out)@ + spec_encode_config(c@));
    }
}

/// The comma-joined `[pid, config]` pairs of a listing, from `i` on.
pub open spec fn spec_encode_procs_from(l: Seq<(u32, AppConfigV)>, i: int) -> Seq<char>
    decreases l.len() - i,
{
    if i < 0 || i >= l.len() {
        Seq::empty()
    } else {
        let item = "["@ + spec_u32_digits(l[i].0) + ","@ + spec_encode_config(l[i].1) + "]"@;
        if i == l.len() - 1 {
            item
        } else {
            item + ","@ + spec_encode_procs_from(l, i + 1)
        }
    }
}

#[verifier::rlimit(60)]
fn push_procs(l: &Vec<(u32, AppConfig)>, out: &mut Vec<char>)
    ensures
        final(out)@ == old(out)@ + spec_encode_procs_from(procs_view(l@), 0),
{
    let ghost lv = procs_view(l@);
    let mut i: usize = 0;
    while i < l.len()
        invariant
            lv == procs_view(l@),
            lv.len() == l@.len(),
            i <= l@.len(),
            out@ + spec_encode_procs_from(lv, i as int) == old(out)@ + spec_encode_procs_from(
                lv,
                0,
            ),
        decreases l@.len() - i,
    {
        push_str_chars("[", out);
        push_u32_chars(l[i].0, out);
        push_str_chars(",", out);
        push_config(&l[i].1, out);
        push_str_chars("]", out);
        if i + 1 < l.len() {
            push_str_chars(",", out);
        }
        proof {
            let item = "["@ + spec_u32_digits(lv[i as int].0) + ","@ + spec_encode_config(
                lv[i as int].1,
            ) + "]"@;
            if i + 1 < l@.len() {
                assert(spec_encode_procs_from(lv, i as int) =~= item + ","@
                    + spec_encode_procs_from(lv, i + 1));
            } else {
                assert(spec_encode_procs_from(lv, i as int) =~= item);
                assert(spec_encode_procs_from(lv, i + 1) =~= Seq::<char>::empty());
            }
            assert(out@ + spec_encode_procs_from(lv, i + 1) =~= old(out)@
                + spec_encode_procs_from(lv, 0));
        }
        i += 1;
    }
    proof {
        assert(spec_encode_procs_from(lv, l@.len() as int) =~= Seq::<char>::empty());
        assert(final(out)@ =~= final(out)@ + spec_encode_procs_from(lv, l@.len() as int));
    }
}

/// `null`, or the encoding of the value.
pub open spec fn spec_encode_opt_u32(o: Option<u32>) -> Seq<char> {
    match o {
        None => "null"@,
        Some(n) => spec_u32_digits(n),
    }
}

fn push_opt_u32(o: &Option<u32>, out: &mut Vec<char>)
    ensures
        final(out)@ == old(out)@ + spec_encode_opt_u32(*o),
{
    match o {
        None => push_str_chars("null", out),
        Some(n) => push_u32_chars(*n, out),
    }
}

/// The canonical text of one whole response frame: all seven fields,
/// in sorted order, `null` standing for an absent field.
pub open spec fn spec_encode_response(r: AppControllerResponseV) -> Seq<char> {
    "{\"config\":"@ + (match r.config {
        None => "null"@,
        Some(c) => spec_encode_config(c),
    }) + ",\"error\":"@ + (match r.error {
        None => "null"@,
        Some(e) => spec_encode_string(e),
    }) + ",\"pid\":"@ + spec_encode_opt_u32(r.pid) + ",\"process_ids\":"@ + (match r.process_ids {
        None => "null"@,
        Some(l) => "["@ + spec_encode_procs_from(l, 0) + "]"@,
    }) + ",\"screen_height\":"@ + spec_encode_opt_u32(r.screen_height) + ",\"screen_width\":"@
        + spec_encode_opt_u32(r.screen_width) + ",\"success\":"@ + (if r.success {
        "true"@
    } else {
        "false"@
    }) + "}"@
}

/// Encode one response frame as its canonical text.
#[verifier::rlimit(60)]
pub fn encode_response(r: &AppControllerResponse) -> (out: String)
    ensures
        out@ == spec_encode_response(r@),
{
    let mut buf: Vec<char> = Vec::new();
    push_str_chars("{\"config\":", &mut buf);
    match &r.config {
        None => push_str_chars("null", &mut buf),
        Some(c) => push_config(c, &mut buf),
    }
    push_str_chars(",\"error\":", &mut buf);
    match &r.error {
        None => push_str_chars("null", &mut buf),
        Some(e) => {
            let chars = str_to_char_vec(e.as_str());
            push_string(&chars, &mut buf);
        },
    }
    push_str_chars(",\"pid\":", &mut buf);
    push_opt_u32(&r.pid, &mut buf);
    push_str_chars(",\"process_ids\":", &mut buf);
    match &r.process_ids {
        None => push_str_chars("null", &mut buf),
        Some(l) => {
            push_str_chars("[", &mut buf);
            push_procs(l, &mut buf);
            push_str_chars("]", &mut buf);
        },
    }
    push_str_chars(",\"screen_height\":", &mut buf);
    push_opt_u32(&r.screen_height, &mut buf);
    push_str_chars(",\"screen_width\":", &mut buf);
    push_opt_u32(&r.screen_width, &mut buf);
    push_str_chars(",\"success\":", &mut buf);
    if r.success {
        push_str_chars("true", &mut buf);
    } else {
        push_str_chars("false", &mut buf);
    }
    push_str_chars("}", &mut buf);
    proof {
        assert(buf@ =~= spec_encode_response(r@));
    }
    crate::text::chars_to_string(&buf)
}

/// The failure text for a move or kill on an absent pid; always this
/// one shape, whatever the command.
pub open spec fn spec_unknown_pid_message(pid: u32) -> Seq<char> {
    "unknown pid "@ + spec_u32_digits(pid)
}

/// Render the absent-pid failure text.
pub fn unknown_pid_message(pid: u32) -> (r: String)
    ensures
        r@ == spec_unknown_pid_message(pid),
{
    let mut buf: Vec<char> = Vec::new();
    push_str_chars("unknown pid ", &mut buf);
    push_u32_chars(pid, &mut buf);
    crate::text::chars_to_string(&buf)
}

/// A failure response: `success` is false, only the error populated.
pub open spec fn spec_failure_response(err: Seq<char>) -> AppControllerResponseV {
    AppControllerResponseV {
        success: false,
        pid: None,
        screen_width: None,
        screen_height: None,
        config: None,
        process_ids: None,
        error: Some(err),
    }
}

/// A success response that reports only the affected pid.
pub open spec fn spec_pid_response(pid: u32) -> AppControllerResponseV {
    AppControllerResponseV {
        success: true,
        pid: Some(pid),
        screen_width: None,
        screen_height: None,
        config: None,
        process_ids: None,
        error: None,
    }
}

/// Build the failure response for `message`: per-command failures are
/// answered inline and never escape the protocol boundary.
pub fn error_response(message: String) -> (r: AppControllerResponse)
    ensures
        r@ == spec_failure_response(message@),
{
    AppControllerResponse {
        success: false,
        pid: None,
        screen_width: None,
        screen_height: None,
        config: None,
        process_ids: None,
        error: Some(message),
    }
}

/// A listing is exactly the supervisor's map, in ascending pid order.
pub open spec fn listing_matches(
    l: Seq<(u32, AppConfigV)>,
    procs: Map<u32, AppConfigV>,
) -> bool {
    &&& forall|i: int, j: int| 0 <= i < j < l.len() ==> l[i].0 < l[j].0
    &&& forall|i: int|
        0 <= i < l.len() ==> procs.contains_key(#[trigger] l[i].0) && procs[l[i].0] == l[i].1
    &&& forall|pid: u32| procs.contains_key(pid) ==> exists|i: int| 0 <= i < l.len() && l[i].0 == pid
}

/// Answer a spawn command: the host performed the operating-system
/// launch while holding the store reservation and passes its outcome;
/// this commits or discards the registration and builds the response
/// frame — on success the new pid and the echoed configuration, on
/// failure the error text alone, with no state change.
pub fn finish_spawn(
    controller: &mut AppController,
    positions: &mut PositionStore,
    config: &AppConfig,
    launch: Result<u32, SpawnError>,
) -> (r: AppControllerResponse)
    requires
        old(controller).inv(),
        old(positions).inv(),
        consistent(old(controller)@, old(positions)@),
    ensures
        final(controller).inv(),
        final(positions).inv(),
        consistent(final(controller)@, final(positions)@),
        match launch {
            Ok(pid) => {
                &&& final(controller)@ == old(controller)@.insert(pid, config@)
                &&& final(positions)@ == old(positions)@.insert(pid, config.area)
                &&& r@ == (AppControllerResponseV {
                    success: true,
                    pid: Some(pid),
                    screen_width: None,
                    screen_height: None,
                    config: Some(config@),
                    process_ids: None,
                    error: None,
                })
            },
            Err(e) => {
                &&& final(controller)@ == old(controller)@
                &&& final(positions)@ == old(positions)@
                &&& r@ == spec_failure_response(e.message@)
            },
        },
{
    match controller.spawn_process(positions, config, launch) {
        Ok(pid) => AppControllerResponse {
            success: true,
            pid: Some(pid),
            screen_width: None,
            screen_height: None,
            config: Some(config.clone()),
            process_ids: None,
            error: None,
        },
        Err(e) => error_response(e.message),
    }
}

/// Execute a decoded non-spawn command against the supervisor and
/// build its response frame: moves and kills answer the pid or the
/// absent-pid failure and mutate nothing on failure; a list answers
/// the full snapshot in ascending pid order; a screen-size query
/// echoes the fixed canvas dimensions.  Spawns need the host's
/// operating-system launch and go through [`finish_spawn`] instead.
pub fn apply_command(
    controller: &mut AppController,
    positions: &mut PositionStore,
    cmd: &crate::config::AppControllerCommand,
    screen_size: [u32; 2],
) -> (r: AppControllerResponse)
    requires
        old(controller).inv(),
        old(positions).inv(),
        consistent(old(controller)@, old(positions)@),
        !(cmd is Spawn),
    ensures
        final(controller).inv(),
        final(positions).inv(),
        consistent(final(controller)@, final(positions)@),
        match *cmd {
            crate::config::AppControllerCommand::Move { pid, rect } => {
                &&& old(controller)@.contains_key(pid) ==> {
                    &&& final(controller)@ == old(controller)@.insert(
                        pid,
                        crate::supervisor::with_area(old(controller)@[pid], rect),
                    )
                    &&& final(positions)@ == old(positions)@.insert(pid, rect)
                    &&& r@ == spec_pid_response(pid)
                }
                &&& !old(controller)@.contains_key(pid) ==> {
                    &&& final(controller)@ == old(controller)@
                    &&& final(positions)@ == old(positions)@
                    &&& r@ == spec_failure_response(spec_unknown_pid_message(pid))
                }
            },
            crate::config::AppControllerCommand::Kill { pid } => {
                &&& old(controller)@.contains_key(pid) ==> {
                    &&& final(controller)@ == old(controller)@.remove(pid)
                    &&& final(positions)@ == old(positions)@.remove(pid)
                    &&& r@ == spec_pid_response(pid)
                }
                &&& !old(controller)@.contains_key(pid) ==> {
                    &&& final(controller)@ == old(controller)@
                    &&& final(positions)@ == old(positions)@
                    &&& r@ == spec_failure_response(spec_unknown_pid_message(pid))
                }
            },
            crate::config::AppControllerCommand::List => {
                &&& final(controller)@ == old(controller)@
                &&& final(positions)@ == old(positions)@
                &&& r@.success == true
                &&& r@.pid is None
                &&& r@.screen_width is None
                &&& r@.screen_height is None
                &&& r@.config is None
                &&& r@.error is None
                &&& (r@.process_ids matches Some(l) && listing_matches(l, old(controller)@))
            },
            crate::config::AppControllerCommand::ScreenSize => {
                &&& final(controller)@ == old(controller)@
                &&& final(positions)@ == old(positions)@
                &&& r@ == (AppControllerResponseV {
                    success: true,
                    pid: None,
                    screen_width: Some(screen_size@[0]),
                    screen_height: Some(screen_size@[1]),
                    config: None,
                    process_ids: None,
                    error: None,
                })
            },
            crate::config::AppControllerCommand::Spawn { .. } => false,
        },
{
    match cmd {
        crate::config::AppControllerCommand::Move { pid, rect } => {
            match controller.resize_process(positions, *pid, *rect) {
                Ok(p) => AppControllerResponse {
                    success: true,
                    pid: Some(p),
                    screen_width: None,
                    screen_height: None,
                    config: None,
                    process_ids: None,
                    error: None,
                },
                Err(e) => error_response(unknown_pid_message(e.pid)),
            }
        },
        crate::config::AppControllerCommand::Kill { pid } => {
            match controller.kill_process(positions, *pid) {
                Ok(_) => AppControllerResponse {
                    success: true,
                    pid: Some(*pid),
                    screen_width: None,
                    screen_height: None,
                    config: None,
                    process_ids: None,
                    error: None,
                },
                Err(e) => error_response(unknown_pid_message(e.pid)),
            }
        },
        crate::config::AppControllerCommand::List => {
            let l = controller.list_processes();
            proof {
                assert(listing_matches(procs_view(l@), controller@)) by {
                    assert forall|i: int|
                        0 <= i < procs_view(l@).len() implies controller@.contains_key(
                        #[trigger] procs_view(l@)[i].0,
                    ) && controller@[procs_view(l@)[i].0] == procs_view(l@)[i].1 by {
                        assert(procs_view(l@)[i].0 == l@[i].0);
                    };
                    assert forall|pid: u32| controller@.contains_key(pid) implies exists|i: int|
                        0 <= i < procs_view(l@).len() && procs_view(l@)[i].0 == pid by {
                        let i = choose|i: int| 0 <= i < l@.len() && l@[i].0 == pid;
                        assert(procs_view(l@)[i].0 == pid);
                    };
                };
            }
            AppControllerResponse {
                success: true,
                pid: None,
                screen_width: None,
                screen_height: None,
                config: None,
                process_ids: Some(l),
                error: None,
            }
        },
        crate::config::AppControllerCommand::ScreenSize => {
            let ss = crate::supervisor::send_screen_size(screen_size);
            AppControllerResponse {
                success: true,
                pid: None,
                screen_width: Some(ss[0]),
                screen_height: Some(ss[1]),
                config: None,
                process_ids: None,
                error: None,
            }
        },
        crate::config::AppControllerCommand::Spawn { .. } => vstd::pervasive::unreached(),
    }
}

} // verus!
