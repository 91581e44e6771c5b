//! Commands sent to the agent-browser daemon over its newline-delimited
//! JSON socket, and the request each one becomes.

use vstd::prelude::*;
use crate::text::{chars_of, contains_seq, decimal, push_decimal, push_str, str_contains, string_from_chars, string_of};

verus! {

/// A parameter value of a daemon command.
pub enum Param {
    Bool(bool),
    Int(i64),
    Str(String),
}

/// The mathematical value of a [`Param`].
pub enum ParamModel {
    Bool(bool),
    Int(int),
    Str(Seq<char>),
}

impl View for Param {
    type V = ParamModel;

    open spec fn view(&self) -> ParamModel {
        match self {
            Param::Bool(b) => ParamModel::Bool(*b),
            Param::Int(i) => ParamModel::Int(*i as int),
            Param::Str(s) => ParamModel::Str(s@),
        }
    }
}

/// A named parameter as its key and value.
pub type Field = (String, Param);

/// The model of a list of named parameters.
pub open spec fn fields_view(fs: Seq<Field>) -> Seq<(Seq<char>, ParamModel)> {
    fs.map_values(|f: Field| (f.0@, f.1@))
}

/// One command for the daemon: an action and its parameters.
pub struct DaemonCommand {
    pub action: String,
    pub params: Vec<Field>,
}

impl View for DaemonCommand {
    type V = (Seq<char>, Seq<(Seq<char>, ParamModel)>);

    open spec fn view(&self) -> Self::V {
        (self.action@, fields_view(self.params@))
    }
}

pub open spec fn str_field(k: Seq<char>, v: Seq<char>) -> (Seq<char>, ParamModel) {
    (k, ParamModel::Str(v))
}

pub open spec fn int_field(k: Seq<char>, v: int) -> (Seq<char>, ParamModel) {
    (k, ParamModel::Int(v))
}

fn str_param(k: &str, v: &str) -> (f: Field)
    ensures
        (f.0@, f.1@) == str_field(k@, v@),
{
    (string_of(k), Param::Str(string_of(v)))
}

fn int_param(k: &str, v: i64) -> (f: Field)
    ensures
        (f.0@, f.1@) == int_field(k@, v as int),
{
    (string_of(k), Param::Int(v))
}

fn command(action: &str, params: Vec<Field>) -> (c: DaemonCommand)
    ensures
        c@ == (action@, fields_view(params@)),
{
    DaemonCommand { action: string_of(action), params }
}

/// The id `cmux-<n>` that tags a request.
pub fn request_id(n: u64) -> (r: String)
    ensures
        r@ == "cmux-"@ + decimal(n as nat),
{
    let mut out: Vec<char> = Vec::new();
    push_str(&mut out, "cmux-");
    push_decimal(&mut out, n);
    string_from_chars(&out)
}

/// Whether a key is one that every request sets itself.
pub open spec fn is_reserved(k: Seq<char>) -> bool {
    k == "id"@ || k == "action"@
}

/// The parameters whose keys are not reserved, in order.
pub open spec fn unreserved(fs: Seq<(Seq<char>, ParamModel)>) -> Seq<(Seq<char>, ParamModel)>
    decreases fs.len(),
{
    if fs.len() == 0 {
        seq![]
    } else if is_reserved(fs.last().0) {
        unreserved(fs.drop_last())
    } else {
        unreserved(fs.drop_last()).push(fs.last())
    }
}

/// The fields of the request object for `cmd`: its parameters, where the
/// `id` and `action` entries of the request take the place of any
/// parameters with those keys.
pub open spec fn request_model(cmd: (Seq<char>, Seq<(Seq<char>, ParamModel)>), id: Seq<char>) -> Seq<
    (Seq<char>, ParamModel),
> {
    unreserved(cmd.1) + seq![str_field("id"@, id), str_field("action"@, cmd.0)]
}

fn clone_param(p: &Param) -> (q: Param)
    ensures
        q@ == p@,
{
    match p {
        Param::Bool(b) => Param::Bool(*b),
        Param::Int(i) => Param::Int(*i),
        Param::Str(s) => Param::Str(s.clone()),
    }
}

fn key_is_reserved(k: &String) -> (b: bool)
    ensures
        b == is_reserved(k@),
{
    let id = string_of("id");
    let action = string_of("action");
    *k == id || *k == action
}

/// The request object sent for `cmd`, tagged with `id`.
pub fn request_fields(cmd: &DaemonCommand, id: &str) -> (r: Vec<Field>)
    ensures
        fields_view(r@) == request_model(cmd@, id@),
{
    let ghost ps = fields_view(cmd.params@);
    let mut out: Vec<Field> = Vec::new();
    let mut i: usize = 0;
    while i < cmd.params.len()
        invariant
            i <= cmd.params.len(),
            ps == fields_view(cmd.params@),
            fields_view(out@) == unreserved(ps.subrange(0, i as int)),
        decreases cmd.params.len() - i,
    {
        let ghost pre = ps.subrange(0, i as int);
        assert(ps.subrange(0, i + 1).drop_last() =~= pre);
        assert(ps.subrange(0, i + 1).last() == ps[i as int]);
        if !key_is_reserved(&cmd.params[i].0) {
            let ghost before = out@;
            out.push((cmd.params[i].0.clone(), clone_param(&cmd.params[i].1)));
            assert(fields_view(out@) =~= fields_view(before).push(ps[i as int]));
        }
        i = i + 1;
    }
    assert(ps.subrange(0, cmd.params.len() as int) =~= ps);
    let ghost before = out@;
    out.push(str_param("id", id));
    let mut action_field = (string_of("action"), Param::Str(cmd.action.clone()));
    out.push(action_field);
    assert(fields_view(out@) =~= fields_view(before) + seq![
        str_field("id"@, id@),
        str_field("action"@, cmd.action@),
    ]);
    out
}

/// `stream_enable` with no parameters.
pub fn stream_enable() -> (c: DaemonCommand)
    ensures
        c@ == ("stream_enable"@, Seq::<(Seq<char>, ParamModel)>::empty()),
{
    let c = command("stream_enable", Vec::new());
    assert(c@.1 =~= Seq::<(Seq<char>, ParamModel)>::empty());
    c
}

/// `launch` of a headless browser.
pub fn launch_headless() -> (c: DaemonCommand)
    ensures
        c@ == ("launch"@, seq![("headless"@, ParamModel::Bool(true))]),
{
    let mut ps: Vec<Field> = Vec::new();
    ps.push((string_of("headless"), Param::Bool(true)));
    let c = command("launch", ps);
    assert(c@.1 =~= seq![("headless"@, ParamModel::Bool(true))]);
    c
}

/// `navigate` to `url`.
pub fn navigate(url: &str) -> (c: DaemonCommand)
    ensures
        c@ == ("navigate"@, seq![str_field("url"@, url@)]),
{
    let mut ps: Vec<Field> = Vec::new();
    ps.push(str_param("url", url));
    let c = command("navigate", ps);
    assert(c@.1 =~= seq![str_field("url"@, url@)]);
    c
}

/// `screencast_start` of JPEG frames at quality 80.
pub fn screencast_start() -> (c: DaemonCommand)
    ensures
        c@ == ("screencast_start"@, seq![
            str_field("format"@, "jpeg"@),
            int_field("quality"@, 80),
        ]),
{
    let mut ps: Vec<Field> = Vec::new();
    ps.push(str_param("format", "jpeg"));
    ps.push(int_param("quality", 80));
    let c = command("screencast_start", ps);
    assert(c@.1 =~= seq![str_field("format"@, "jpeg"@), int_field("quality"@, 80)]);
    c
}

/// `close`, the polite shutdown request.
pub fn close_command() -> (c: DaemonCommand)
    ensures
        c@ == ("close"@, seq![str_field("id"@, "cmux-shutdown"@)]),
{
    let mut ps: Vec<Field> = Vec::new();
    ps.push(str_param("id", "cmux-shutdown"));
    let c = command("close", ps);
    assert(c@.1 =~= seq![str_field("id"@, "cmux-shutdown"@)]);
    c
}

/// A command without parameters, such as `back`, `forward`, `reload` or
/// `snapshot`.
pub fn bare_command(action: &str) -> (c: DaemonCommand)
    ensures
        c@ == (action@, Seq::<(Seq<char>, ParamModel)>::empty()),
{
    let c = command(action, Vec::new());
    assert(c@.1 =~= Seq::<(Seq<char>, ParamModel)>::empty());
    c
}

/// `viewport` of the given size.
pub fn viewport(width: i64, height: i64) -> (c: DaemonCommand)
    ensures
        c@ == ("viewport"@, seq![int_field("width"@, width as int), int_field("height"@, height as int)]),
{
    let mut ps: Vec<Field> = Vec::new();
    ps.push(int_param("width", width));
    ps.push(int_param("height", height));
    let c = command("viewport", ps);
    assert(c@.1 =~= seq![int_field("width"@, width as int), int_field("height"@, height as int)]);
    c
}

/// The URL that the address bar navigates to for `raw`: nothing for an
/// empty entry, the entry itself when it names a scheme (`://`), and
/// `https://` before it otherwise.
pub open spec fn normalized_url(raw: Seq<char>) -> Option<Seq<char>> {
    if raw.len() == 0 {
        None
    } else if contains_seq(raw, "://"@) {
        Some(raw)
    } else {
        Some("https://"@ + raw)
    }
}

pub fn normalize_url(raw: &str) -> (r: Option<String>)
    ensures
        match r {
            Some(u) => normalized_url(raw@) == Some(u@),
            None => normalized_url(raw@) is None,
        },
{
    let v = chars_of(raw);
    if v.len() == 0 {
        return None;
    }
    if str_contains(raw, "://") {
        return Some(string_of(raw));
    }
    let mut out: Vec<char> = Vec::new();
    push_str(&mut out, "https://");
    push_str(&mut out, raw);
    Some(string_from_chars(&out))
}

/// The commands for navigating from the address bar: a `viewport` of the
/// pane's size first when both sides are positive, then `navigate`.
pub open spec fn navigation_model(url: Seq<char>, width: int, height: int) -> Seq<
    (Seq<char>, Seq<(Seq<char>, ParamModel)>),
> {
    let nav = ("navigate"@, seq![str_field("url"@, url)]);
    if width > 0 && height > 0 {
        seq![("viewport"@, seq![int_field("width"@, width), int_field("height"@, height)]), nav]
    } else {
        seq![nav]
    }
}

pub open spec fn commands_view(cs: Seq<DaemonCommand>) -> Seq<(Seq<char>, Seq<(Seq<char>, ParamModel)>)> {
    cs.map_values(|c: DaemonCommand| c@)
}

/// What the address bar does with the text `raw` in a pane of the given
/// size: the URL it shows afterwards and the commands it sends, or
/// nothing for an empty entry.
pub fn navigation_steps(raw: &str, width: i32, height: i32) -> (r: Option<(String, Vec<DaemonCommand>)>)
    ensures
        match r {
            Some((u, cs)) => normalized_url(raw@) == Some(u@) && commands_view(cs@)
                == navigation_model(u@, width as int, height as int),
            None => normalized_url(raw@) is None,
        },
{
    match normalize_url(raw) {
        None => None,
        Some(url) => {
            let mut cs: Vec<DaemonCommand> = Vec::new();
            if width > 0 && height > 0 {
                cs.push(viewport(width as i64, height as i64));
            }
            cs.push(navigate(url.as_str()));
            assert(commands_view(cs@) =~= navigation_model(url@, width as int, height as int));
            Some((url, cs))
        },
    }
}

/// The fields of one `input_mouse` event at a point.
pub open spec fn mouse_fields(kind: Seq<char>, x: int, y: int) -> Seq<(Seq<char>, ParamModel)> {
    seq![
        str_field("type"@, kind),
        int_field("x"@, x),
        int_field("y"@, y),
        str_field("button"@, "left"@),
        int_field("clickCount"@, 1),
    ]
}

fn mouse_button(kind: &str, x: i64, y: i64) -> (c: DaemonCommand)
    ensures
        c@ == ("input_mouse"@, mouse_fields(kind@, x as int, y as int)),
{
    let mut ps: Vec<Field> = Vec::new();
    ps.push(str_param("type", kind));
    ps.push(int_param("x", x));
    ps.push(int_param("y", y));
    ps.push(str_param("button", "left"));
    ps.push(int_param("clickCount", 1));
    let c = command("input_mouse", ps);
    assert(c@.1 =~= mouse_fields(kind@, x as int, y as int));
    c
}

/// A left click at a point of the page: a press, then a release there.
pub fn mouse_click(x: i64, y: i64) -> (cs: Vec<DaemonCommand>)
    ensures
        commands_view(cs@) == seq![
            ("input_mouse"@, mouse_fields("mousePressed"@, x as int, y as int)),
            ("input_mouse"@, mouse_fields("mouseReleased"@, x as int, y as int)),
        ],
{
    let mut cs: Vec<DaemonCommand> = Vec::new();
    cs.push(mouse_button("mousePressed", x, y));
    cs.push(mouse_button("mouseReleased", x, y));
    assert(commands_view(cs@) =~= seq![
        ("input_mouse"@, mouse_fields("mousePressed"@, x as int, y as int)),
        ("input_mouse"@, mouse_fields("mouseReleased"@, x as int, y as int)),
    ]);
    cs
}

/// The pixel distance that one discrete scroll step moves the page.
pub open spec fn scroll_step_pixels() -> int {
    120
}

/// Half of `v`, rounded toward zero.
pub open spec fn half_toward_zero(v: int) -> int {
    if v >= 0 {
        v / 2
    } else {
        -((-v) / 2)
    }
}

/// A vertical wheel event that scrolls by `delta_y` pixels, at the centre
/// of a page of the given size.
pub fn mouse_wheel(page_width: i64, page_height: i64, delta_y: i64) -> (c: DaemonCommand)
    ensures
        c@ == ("input_mouse"@, seq![
            str_field("type"@, "mouseWheel"@),
            int_field("x"@, half_toward_zero(page_width as int)),
            int_field("y"@, half_toward_zero(page_height as int)),
            int_field("deltaX"@, 0),
            int_field("deltaY"@, delta_y as int),
        ]),
{
    let mut ps: Vec<Field> = Vec::new();
    ps.push(str_param("type", "mouseWheel"));
    ps.push(int_param("x", page_width / 2));
    ps.push(int_param("y", page_height / 2));
    ps.push(int_param("deltaX", 0));
    ps.push(int_param("deltaY", delta_y));
    let c = command("input_mouse", ps);
    assert(c@.1 =~= seq![
        str_field("type"@, "mouseWheel"@),
        int_field("x"@, half_toward_zero(page_width as int)),
        int_field("y"@, half_toward_zero(page_height as int)),
        int_field("deltaX"@, 0),
        int_field("deltaY"@, delta_y as int),
    ]);
    c
}

/// The full request for a pointer move, which is written to the socket
/// as it is, with its own fixed id.
pub fn motion_request(x: i64, y: i64) -> (r: Vec<Field>)
    ensures
        fields_view(r@) == seq![
            str_field("id"@, "motion"@),
            str_field("action"@, "input_mouse"@),
            str_field("type"@, "mouseMoved"@),
            int_field("x"@, x as int),
            int_field("y"@, y as int),
        ],
{
    let mut ps: Vec<Field> = Vec::new();
    ps.push(str_param("id", "motion"));
    ps.push(str_param("action", "input_mouse"));
    ps.push(str_param("type", "mouseMoved"));
    ps.push(int_param("x", x));
    ps.push(int_param("y", y));
    assert(fields_view(ps@) =~= seq![
        str_field("id"@, "motion"@),
        str_field("action"@, "input_mouse"@),
        str_field("type"@, "mouseMoved"@),
        int_field("x"@, x as int),
        int_field("y"@, y as int),
    ]);
    ps
}

/// The shortest gap between two forwarded pointer moves, in nanoseconds.
pub open spec fn motion_interval_nanos() -> int {
    60_000_000
}

/// Whether a pointer move that comes `elapsed_nanos` after the last one
/// sent is forwarded: moves closer together than 60 ms are dropped.
pub fn motion_due(elapsed_nanos: u128) -> (b: bool)
    ensures
        b == (elapsed_nanos >= motion_interval_nanos()),
{
    elapsed_nanos >= 60_000_000
}

/// The fields of a key event.
pub open spec fn key_fields(kind: Seq<char>, key: Seq<char>, code: Seq<char>, modifiers: int) -> Seq<
    (Seq<char>, ParamModel),
> {
    seq![
        str_field("type"@, kind),
        str_field("key"@, key),
        str_field("code"@, code),
        int_field("modifiers"@, modifiers),
    ]
}

/// Whether a pressed key also types text: a key whose UTF-8 form is one
/// byte (a single ASCII character), without Ctrl.
pub open spec fn types_text(key: Seq<char>, ctrl: bool) -> bool {
    key.len() == 1 && (key[0] as u32) < 0x80 && !ctrl
}

/// `keyDown` for a key, with the key as `text` when it types text.
pub fn key_down(key: &str, code: &str, modifiers: i32, ctrl: bool) -> (c: DaemonCommand)
    ensures
        c@ == ("input_keyboard"@, if types_text(key@, ctrl) {
            key_fields("keyDown"@, key@, code@, modifiers as int).push(str_field("text"@, key@))
        } else {
            key_fields("keyDown"@, key@, code@, modifiers as int)
        }),
{
    let mut ps: Vec<Field> = Vec::new();
    ps.push(str_param("type", "keyDown"));
    ps.push(str_param("key", key));
    ps.push(str_param("code", code));
    ps.push(int_param("modifiers", modifiers as i64));
    let ghost base = fields_view(ps@);
    assert(base =~= key_fields("keyDown"@, key@, code@, modifiers as int));
    let kc = chars_of(key);
    if kc.len() == 1 && (kc[0] as u32) < 0x80 && !ctrl {
        ps.push(str_param("text", key));
        assert(fields_view(ps@) =~= base.push(str_field("text"@, key@)));
    }
    command("input_keyboard", ps)
}

/// `keyUp` for a key.
pub fn key_up(key: &str, code: &str, modifiers: i32) -> (c: DaemonCommand)
    ensures
        c@ == ("input_keyboard"@, key_fields("keyUp"@, key@, code@, modifiers as int)),
{
    let mut ps: Vec<Field> = Vec::new();
    ps.push(str_param("type", "keyUp"));
    ps.push(str_param("key", key));
    ps.push(str_param("code", code));
    ps.push(int_param("modifiers", modifiers as i64));
    let c = command("input_keyboard", ps);
    assert(c@.1 =~= key_fields("keyUp"@, key@, code@, modifiers as int));
    c
}

/// Every key that `unreserved` keeps is not reserved.
proof fn lemma_unreserved_keys(fs: Seq<(Seq<char>, ParamModel)>)
    ensures
        forall|i: int| 0 <= i < unreserved(fs).len() ==> !is_reserved(#[trigger] unreserved(fs)[i].0),
    decreases fs.len(),
{
    if fs.len() > 0 {
        let prev = unreserved(fs.drop_last());
        lemma_unreserved_keys(fs.drop_last());
        if !is_reserved(fs.last().0) {
            assert forall|i: int| 0 <= i < unreserved(fs).len() implies !is_reserved(
                #[trigger] unreserved(fs)[i].0,
            ) by {
                if i < prev.len() {
                    assert(unreserved(fs)[i] == prev[i]);
                }
            }
        }
    }
}

/// Every request carries exactly one `id` and one `action`: the last two
/// fields, whatever parameters the command had.
pub proof fn lemma_request_reserved_keys(cmd: (Seq<char>, Seq<(Seq<char>, ParamModel)>), id: Seq<char>)
    ensures
        ({
            let r = request_model(cmd, id);
            &&& r.len() >= 2
            &&& r[r.len() - 2] == str_field("id"@, id)
            &&& r[r.len() - 1] == str_field("action"@, cmd.0)
            &&& forall|i: int| 0 <= i < r.len() - 2 ==> !is_reserved(#[trigger] r[i].0)
        }),
{
    lemma_unreserved_keys(cmd.1);
    let r = request_model(cmd, id);
    let u = unreserved(cmd.1);
    assert forall|i: int| 0 <= i < r.len() - 2 implies !is_reserved(#[trigger] r[i].0) by {
        assert(r[i] == u[i]);
    }
}

/// Normalizing an address twice gives what normalizing it once gives: the
/// bar shows the normalized address, and confirming it again navigates to
/// the same place.
pub proof fn lemma_normalize_idempotent(raw: Seq<char>)
    requires
        normalized_url(raw) is Some,
    ensures
        normalized_url(normalized_url(raw)->0) == normalized_url(raw),
{
    let u = normalized_url(raw)->0;
    if !contains_seq(raw, "://"@) {
        reveal_strlit("https://");
        reveal_strlit("://");
        assert(u.subrange(5int, 5int + "://"@.len()) =~= "://"@);
        assert(contains_seq(u, "://"@));
    }
}

/// A reply to the DevTools snapshot request, as the fields that matter:
/// the `data` and `result` strings, and the whole reply pretty-printed.
pub struct SnapshotReply {
    pub data: Option<String>,
    pub result: Option<String>,
    pub pretty: String,
}

/// The text that the DevTools overlay shows: the `data` string, else the
/// `result` string, else the whole reply; or the error.
pub open spec fn snapshot_model(reply: Result<SnapshotReply, Seq<char>>) -> Seq<char> {
    match reply {
        Ok(r) => match r.data {
            Some(d) => d@,
            None => match r.result {
                Some(x) => x@,
                None => r.pretty@,
            },
        },
        Err(e) => "Snapshot error: "@ + e,
    }
}

pub fn snapshot_text(reply: Result<SnapshotReply, &str>) -> (r: String)
    ensures
        r@ == snapshot_model(
            match reply {
                Ok(x) => Ok(x),
                Err(e) => Err(e@),
            },
        ),
{
    match reply {
        Ok(x) => match x.data {
            Some(d) => d,
            None => match x.result {
                Some(v) => v,
                None => x.pretty,
            },
        },
        Err(e) => {
            let mut m: Vec<char> = Vec::new();
            push_str(&mut m, "Snapshot error: ");
            push_str(&mut m, e);
            string_from_chars(&m)
        },
    }
}

/// The compact JSON text that `serde_json` writes for an object holding
/// the given fields, inserted in order into its `Map`.
pub uninterp spec fn json_object_text(fields: Seq<(Seq<char>, ParamModel)>) -> Seq<char>;

/// Writes the fields as one JSON object with `serde_json`: each field is
/// inserted into a `serde_json::Map` in order, and the object is written
/// compactly with `Value`'s `Display`. The contract claims only that the
/// text is what `json_object_text` names for the fields.
#[verifier::external_body]
fn json_object(fields: &Vec<Field>) -> (r: String)
    ensures
        r@ == json_object_text(fields_view(fields@)),
{
    let mut map = serde_json::Map::new();
    for (k, v) in fields {
        let value = match v {
            Param::Bool(b) => serde_json::Value::Bool(*b),
            Param::Int(i) => serde_json::Value::from(*i),
            Param::Str(s) => serde_json::Value::String(s.clone()),
        };
        map.insert(k.clone(), value);
    }
    serde_json::Value::Object(map).to_string()
}

/// The line sent to the daemon for the given fields: their JSON object and
/// a line ending.
pub fn fields_line(fields: &Vec<Field>) -> (r: String)
    ensures
        r@ == json_object_text(fields_view(fields@)) + "\n"@,
{
    let text = json_object(fields);
    let mut out: Vec<char> = chars_of(text.as_str());
    push_str(&mut out, "\n");
    string_from_chars(&out)
}

/// The line sent to the daemon for `cmd`, tagged with `id`.
pub fn request_line(cmd: &DaemonCommand, id: &str) -> (r: String)
    ensures
        r@ == json_object_text(request_model(cmd@, id@)) + "\n"@,
{
    let fields = request_fields(cmd, id);
    fields_line(&fields)
}

/// What `serde_json` makes of a reply line: its `data` and `result`
/// string fields and the whole value pretty-printed, or the parse error's
/// text.
pub uninterp spec fn json_reply(line: Seq<char>) -> Result<(Option<Seq<char>>, Option<Seq<char>>, Seq<char>), Seq<char>>;

pub open spec fn reply_view(r: SnapshotReply) -> (Option<Seq<char>>, Option<Seq<char>>, Seq<char>) {
    (
        match r.data {
            Some(d) => Some(d@),
            None => None,
        },
        match r.result {
            Some(x) => Some(x@),
            None => None,
        },
        r.pretty@,
    )
}

/// Parses a reply line with `serde_json::from_str` into a `Value`, then
/// takes its `data` and `result` string members and its pretty-printed
/// text (`Value`'s alternate `Display`); a parse error becomes its
/// message. The contract claims only that the outcome is what
/// `json_reply` names for the line.
#[verifier::external_body]
fn parse_reply_json(line: &str) -> (r: Result<SnapshotReply, String>)
    ensures
        match r {
            Ok(x) => json_reply(line@) == Ok::<_, Seq<char>>(reply_view(x)),
            Err(e) => json_reply(line@) == Err::<(Option<Seq<char>>, Option<Seq<char>>, Seq<char>), _>(e@),
        },
{
    match serde_json::from_str::<serde_json::Value>(line) {
        Ok(v) => Ok(SnapshotReply {
            data: match v.get("data") {
                Some(serde_json::Value::String(d)) => Some(d.clone()),
                _ => None,
            },
            result: match v.get("result") {
                Some(serde_json::Value::String(x)) => Some(x.clone()),
                _ => None,
            },
            pretty: format!("{:#}", v),
        }),
        Err(e) => Err(e.to_string()),
    }
}

/// The daemon's reply as parsed, or `Failed to parse response: ` and the
/// parser's message.
pub fn reply_outcome(parsed: Result<SnapshotReply, String>) -> (r: Result<SnapshotReply, String>)
    ensures
        match parsed {
            Ok(x) => r matches Ok(y) && reply_view(y) == reply_view(x),
            Err(e) => r matches Err(m) && m@ == "Failed to parse response: "@ + e@,
        },
{
    match parsed {
        Ok(x) => Ok(x),
        Err(e) => {
            let mut m: Vec<char> = Vec::new();
            push_str(&mut m, "Failed to parse response: ");
            push_str(&mut m, e.as_str());
            Err(string_from_chars(&m))
        },
    }
}

/// The daemon's reply read from one line (see [`reply_outcome`]).
pub fn parse_response(line: &str) -> (r: Result<SnapshotReply, String>)
    ensures
        match json_reply(line@) {
            Ok(t) => r matches Ok(x) && reply_view(x) == t,
            Err(e) => r matches Err(m) && m@ == "Failed to parse response: "@ + e,
        },
{
    reply_outcome(parse_reply_json(line))
}

/// Whether a key is neither `id` nor `action`.
pub open spec fn is_plain_key(f: (Seq<char>, ParamModel)) -> bool {
    f.0 != "id"@ && f.0 != "action"@
}

proof fn lemma_unreserved_filter(fs: Seq<(Seq<char>, ParamModel)>)
    ensures
        unreserved(fs) == fs.filter(|f: (Seq<char>, ParamModel)| is_plain_key(f)),
    decreases fs.len(),
{
    reveal(Seq::filter);
    if fs.len() > 0 {
        lemma_unreserved_filter(fs.drop_last());
    }
}

/// A request carries every parameter of its command whose key is neither
/// `id` nor `action`, with its value and in order, and then exactly the
/// `id` and `action` entries; nothing else is added or dropped.
pub proof fn lemma_request_keeps_params(cmd: (Seq<char>, Seq<(Seq<char>, ParamModel)>), id: Seq<char>)
    ensures
        request_model(cmd, id) == cmd.1.filter(|f: (Seq<char>, ParamModel)| is_plain_key(f)) + seq![
            ("id"@, ParamModel::Str(id)),
            ("action"@, ParamModel::Str(cmd.0)),
        ],
        forall|k: Seq<char>, v: ParamModel|
            k != "id"@ && k != "action"@ && cmd.1.contains((k, v)) ==> #[trigger] request_model(
                cmd,
                id,
            ).contains((k, v)),
{
    lemma_unreserved_filter(cmd.1);
    let pred = |f: (Seq<char>, ParamModel)| is_plain_key(f);
    assert forall|k: Seq<char>, v: ParamModel|
        k != "id"@ && k != "action"@ && cmd.1.contains((k, v)) implies #[trigger] request_model(
        cmd,
        id,
    ).contains((k, v)) by {
        let i = choose|i: int| 0 <= i < cmd.1.len() && cmd.1[i] == (k, v);
        cmd.1.lemma_filter_contains(pred, i);
        let fl = cmd.1.filter(pred);
        let j = choose|j: int| 0 <= j < fl.len() && fl[j] == (k, v);
        assert(request_model(cmd, id)[j] == (k, v));
    }
}

} // verus!
