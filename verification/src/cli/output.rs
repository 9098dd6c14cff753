//! Output formatting for CLI responses: which lines a response prints, and
//! on which stream.

use vstd::prelude::*;

use crate::cli::ipc::DaemonResponse;
use crate::json::{json_get, json_get_str, json_get_u64, Json, JsonValue, NumberModel};
use crate::text::{decimal, decimal_text};

verus! {

/// An output stream.
#[derive(Debug, Clone, Copy, PartialEq, Eq, Structural)]
pub enum Stream {
    Stdout,
    Stderr,
}

/// One piece of output.
pub enum Output {
    /// A line of text.
    Line(Stream, String),
    /// The whole response as pretty-printed JSON, on stdout.
    PrettyResponse,
    /// The response's data as pretty-printed JSON, on stdout.
    PrettyData,
    /// A JSON value printed compactly on one line, on stdout.
    Compact(JsonValue),
}

/// Mathematical model of a piece of output.
pub enum OutputModel {
    Line(Stream, Seq<char>),
    PrettyResponse,
    PrettyData,
    Compact(Json),
}

impl Output {
    pub open spec fn model(self) -> OutputModel {
        match self {
            Output::Line(s, t) => OutputModel::Line(s, t@),
            Output::PrettyResponse => OutputModel::PrettyResponse,
            Output::PrettyData => OutputModel::PrettyData,
            Output::Compact(v) => OutputModel::Compact(v.model()),
        }
    }
}

/// The models of a list of outputs.
pub open spec fn outputs_model(outs: Seq<Output>) -> Seq<OutputModel> {
    Seq::new(outs.len(), |i: int| outs[i].model())
}

/// The strings among `items`, in order.
pub open spec fn strings_in(items: Seq<Json>) -> Seq<Seq<char>>
    decreases items.len(),
{
    if items.len() == 0 {
        Seq::empty()
    } else {
        let rest = strings_in(items.drop_last());
        match items.last() {
            Json::Str(s) => rest.push(s),
            _ => rest,
        }
    }
}

/// `parts` joined with `sep` between consecutive parts.
pub open spec fn join(parts: Seq<Seq<char>>, sep: Seq<char>) -> Seq<char>
    decreases parts.len(),
{
    if parts.len() == 0 {
        Seq::empty()
    } else if parts.len() == 1 {
        parts[0]
    } else {
        join(parts.drop_last(), sep) + sep + parts.last()
    }
}

/// `text` when there is one, `?` otherwise.
pub open spec fn or_unknown(text: Option<Seq<char>>) -> Seq<char> {
    match text {
        Some(t) => t,
        None => "?"@,
    }
}

/// The summary line of one instance of a `List` response:
/// `{id}  pid={pid}  version={version}  pages=[{p1,p2,...}]`, with `?` for
/// what is missing.
pub open spec fn instance_line(inst: Json) -> Seq<char> {
    or_unknown(json_get_str(inst, "instance_id"@)) + "  pid="@ + or_unknown(
        match json_get_u64(inst, "pid"@) {
            Some(p) => Some(decimal_text(p as nat)),
            None => None,
        },
    ) + "  version="@ + or_unknown(json_get_str(inst, "version"@)) + "  pages=["@ + match json_get(
        inst,
        "pages"@,
    ) {
        Some(Json::Array(pages)) => join(strings_in(pages), ","@),
        _ => Seq::empty(),
    } + "]"@
}

/// What a successful response with `data` prints in human-readable mode,
/// by the shape of the data: a launched instance, a new page, the instance
/// list, an evaluation result, a screenshot, a pong, a navigation, or else
/// the data itself as JSON.
pub open spec fn data_output(d: Json) -> Seq<OutputModel> {
    if let Some(id) = json_get_str(d, "instance_id"@) {
        seq![OutputModel::Line(Stream::Stdout, id)] + match json_get_str(d, "version"@) {
            Some(v) => seq![OutputModel::Line(Stream::Stderr, "version: "@ + v)],
            None => Seq::empty(),
        } + match json_get_u64(d, "pid"@) {
            Some(p) => seq![OutputModel::Line(Stream::Stderr, "pid: "@ + decimal_text(p as nat))],
            None => Seq::empty(),
        }
    } else if let Some(page_id) = json_get_str(d, "page_id"@) {
        seq![OutputModel::Line(Stream::Stdout, page_id)]
    } else if let Some(Json::Array(instances)) = json_get(d, "instances"@) {
        if instances.len() == 0 {
            seq![OutputModel::Line(Stream::Stdout, "no running instances"@)]
        } else {
            Seq::new(
                instances.len(),
                |i: int| OutputModel::Line(Stream::Stdout, instance_line(instances[i])),
            )
        }
    } else if let Some(result) = json_get(d, "result"@) {
        match result {
            Json::Str(s) => seq![OutputModel::Line(Stream::Stdout, s)],
            other => seq![OutputModel::Compact(other)],
        }
    } else if let Some(path) = json_get_str(d, "path"@) {
        let bytes = match json_get_u64(d, "bytes"@) {
            Some(b) => b,
            None => 0,
        };
        seq![
            OutputModel::Line(
                Stream::Stdout,
                path + " ("@ + decimal_text(bytes as nat) + " bytes)"@,
            ),
        ]
    } else if let Some(count) = json_get_u64(d, "instance_count"@) {
        seq![
            OutputModel::Line(Stream::Stdout, "pong ("@ + decimal_text(count as nat) + " instances)"@),
        ]
    } else if let Some(nav) = json_get(d, "navigation_id"@) {
        seq![
            OutputModel::Line(
                Stream::Stdout,
                match nav {
                    Json::Null => "ok (same-document navigation)"@,
                    Json::Str(id) => "ok (navigation_id: "@ + id + ")"@,
                    _ => "ok"@,
                },
            ),
        ]
    } else {
        seq![OutputModel::PrettyData]
    }
}

/// What a response prints: in JSON mode the whole response; otherwise an
/// error line on stderr for a failure, `ok` for a success without data, or
/// the rendering of its data.
pub open spec fn response_output(r: DaemonResponse, json_mode: bool) -> Seq<OutputModel> {
    if json_mode {
        seq![OutputModel::PrettyResponse]
    } else if !r.ok {
        seq![
            OutputModel::Line(
                Stream::Stderr,
                "error: "@ + match r.error {
                    Some(e) => e@,
                    None => "unknown error"@,
                },
            ),
        ]
    } else {
        match r.data {
            Some(d) => data_output(d.model()),
            None => seq![OutputModel::Line(Stream::Stdout, "ok"@)],
        }
    }
}

fn line(stream: Stream, text: String) -> (o: Output)
    ensures
        o.model() == OutputModel::Line(stream, text@),
{
    Output::Line(stream, text)
}

fn one(o: Output) -> (v: Vec<Output>)
    ensures
        outputs_model(v@) == seq![o.model()],
{
    let mut v: Vec<Output> = Vec::new();
    v.push(o);
    assert(outputs_model(v@) =~= seq![o.model()]);
    v
}

fn text(s: &str) -> (r: String)
    ensures
        r@ == s@,
{
    s.to_owned()
}

/// The page ids of a `pages` list, joined with commas.
fn joined_pages(inst: &JsonValue) -> (s: String)
    ensures
        s@ == match json_get(inst.model(), "pages"@) {
            Some(Json::Array(pages)) => join(strings_in(pages), ","@),
            _ => Seq::empty(),
        },
{
    match inst.get("pages") {
        Some(JsonValue::Array(items)) => {
            proof {
                crate::json::lemma_array_model(*items);
            }
            let ghost models = crate::json::items_model(items@);
            let mut s = String::new();
            let mut first = true;
            let mut i: usize = 0;
            assert(models.take(0) =~= Seq::<Json>::empty());
            while i < items.len()
                invariant
                    0 <= i <= items@.len(),
                    models == crate::json::items_model(items@),
                    s@ == join(strings_in(models.take(i as int)), ","@),
                    first == (strings_in(models.take(i as int)).len() == 0),
                decreases items@.len() - i,
            {
                let ghost before = strings_in(models.take(i as int));
                assert(models.take(i + 1).drop_last() =~= models.take(i as int));
                match items[i].as_str() {
                    Some(t) => {
                        if !first {
                            s.append(",");
                        }
                        s.append(t);
                        first = false;
                        proof {
                            reveal_strlit(",");
                            let after = before.push(t@);
                            assert(after.drop_last() =~= before);
                            if before.len() == 0 {
                                assert(s@ =~= join(after, ","@));
                            } else {
                                assert(s@ =~= join(after, ","@));
                            }
                        }
                    },
                    None => {},
                }
                i = i + 1;
            }
            assert(models.take(i as int) =~= models);
            s
        },
        _ => String::new(),
    }
}

fn instance_summary(inst: &JsonValue) -> (s: String)
    ensures
        s@ == instance_line(inst.model()),
{
    let mut s = match inst.get_str("instance_id") {
        Some(id) => text(id),
        None => text("?"),
    };
    s.append("  pid=");
    match inst.get_u64("pid") {
        Some(p) => {
            let d = decimal(p);
            s.append(d.as_str());
        },
        None => {
            s.append("?");
        },
    }
    s.append("  version=");
    match inst.get_str("version") {
        Some(v) => {
            s.append(v);
        },
        None => {
            s.append("?");
        },
    }
    s.append("  pages=[");
    let pages = joined_pages(inst);
    s.append(pages.as_str());
    s.append("]");
    assert(s@ =~= instance_line(inst.model()));
    s
}

fn render_data(d: &JsonValue) -> (out: Vec<Output>)
    ensures
        outputs_model(out@) == data_output(d.model()),
{
    if let Some(id) = d.get_str("instance_id") {
        let mut out = one(line(Stream::Stdout, text(id)));
        let ghost head = outputs_model(out@);
        if let Some(v) = d.get_str("version") {
            let mut t = text("version: ");
            t.append(v);
            out.push(line(Stream::Stderr, t));
        }
        let ghost mid = outputs_model(out@);
        assert(mid =~= head + match json_get_str(d.model(), "version"@) {
            Some(v) => seq![OutputModel::Line(Stream::Stderr, "version: "@ + v)],
            None => Seq::empty(),
        });
        if let Some(p) = d.get_u64("pid") {
            let mut t = text("pid: ");
            let digits = decimal(p);
            t.append(digits.as_str());
            out.push(line(Stream::Stderr, t));
        }
        assert(outputs_model(out@) =~= mid + match json_get_u64(d.model(), "pid"@) {
            Some(p) => seq![OutputModel::Line(Stream::Stderr, "pid: "@ + decimal_text(p as nat))],
            None => Seq::empty(),
        });
        return out;
    }
    if let Some(page_id) = d.get_str("page_id") {
        return one(line(Stream::Stdout, text(page_id)));
    }
    if let Some(JsonValue::Array(instances)) = d.get("instances") {
        proof {
            crate::json::lemma_array_model(*instances);
        }
        if instances.len() == 0 {
            return one(line(Stream::Stdout, text("no running instances")));
        }
        let ghost models = crate::json::items_model(instances@);
        let mut out: Vec<Output> = Vec::new();
        let mut i: usize = 0;
        while i < instances.len()
            invariant
                0 <= i <= instances@.len(),
                models == crate::json::items_model(instances@),
                out@.len() == i,
                outputs_model(out@) == Seq::new(
                    i as nat,
                    |k: int| OutputModel::Line(Stream::Stdout, instance_line(models[k])),
                ),
            decreases instances@.len() - i,
        {
            let summary = instance_summary(&instances[i]);
            assert(models[i as int] == instances@[i as int].model());
            let ghost before = out@;
            let o = line(Stream::Stdout, summary);
            out.push(o);
            assert(out@ == before.push(o));
            assert(outputs_model(out@)[i as int] == OutputModel::Line(Stream::Stdout, instance_line(models[i as int])));
            assert forall|k: int| 0 <= k < i implies outputs_model(out@)[k] == OutputModel::Line(
                Stream::Stdout,
                instance_line(models[k]),
            ) by {
                assert(out@[k] == before[k]);
                assert(outputs_model(before)[k] == OutputModel::Line(
                    Stream::Stdout,
                    instance_line(models[k]),
                ));
            }
            assert(outputs_model(out@) =~= Seq::new(
                (i + 1) as nat,
                |k: int| OutputModel::Line(Stream::Stdout, instance_line(models[k])),
            ));
            i = i + 1;
        }
        return out;
    }
    if let Some(result) = d.get("result") {
        return match result {
            JsonValue::Str(s) => one(line(Stream::Stdout, text(s.as_str()))),
            other => one(Output::Compact(other.duplicate())),
        };
    }
    if let Some(path) = d.get_str("path") {
        let bytes = match d.get_u64("bytes") {
            Some(b) => b,
            None => 0,
        };
        let mut t = text(path);
        t.append(" (");
        let digits = decimal(bytes);
        t.append(digits.as_str());
        t.append(" bytes)");
        return one(line(Stream::Stdout, t));
    }
    if let Some(count) = d.get_u64("instance_count") {
        let mut t = text("pong (");
        let digits = decimal(count);
        t.append(digits.as_str());
        t.append(" instances)");
        return one(line(Stream::Stdout, t));
    }
    if let Some(nav) = d.get("navigation_id") {
        let t = match nav {
            JsonValue::Null => text("ok (same-document navigation)"),
            JsonValue::Str(id) => {
                let mut t = text("ok (navigation_id: ");
                t.append(id.as_str());
                t.append(")");
                t
            },
            _ => text("ok"),
        };
        return one(line(Stream::Stdout, t));
    }
    one(Output::PrettyData)
}

/// What to print for a daemon response, in order; `json_mode` asks for the
/// response as JSON instead of human-readable text.
pub fn render_response(response: &DaemonResponse, json_mode: bool) -> (out: Vec<Output>)
    ensures
        outputs_model(out@) == response_output(*response, json_mode),
{
    if json_mode {
        return one(Output::PrettyResponse);
    }
    if !response.ok {
        let mut t = text("error: ");
        match &response.error {
            Some(e) => t.append(e.as_str()),
            None => t.append("unknown error"),
        }
        return one(line(Stream::Stderr, t));
    }
    match &response.data {
        Some(d) => render_data(d),
        None => one(line(Stream::Stdout, text("ok"))),
    }
}

/// Joining puts exactly one separator between every two consecutive parts:
/// adding a part to a non-empty list adds the separator and that part.
pub proof fn law_join_appends(parts: Seq<Seq<char>>, part: Seq<char>, sep: Seq<char>)
    requires
        parts.len() > 0,
    ensures
        join(parts.push(part), sep) == join(parts, sep) + sep + part,
{
    assert(parts.push(part).drop_last() =~= parts);
}

/// A single part is joined to itself; no parts to the empty text.
pub proof fn law_join_short(part: Seq<char>, sep: Seq<char>)
    ensures
        join(seq![part], sep) == part,
        join(Seq::<Seq<char>>::empty(), sep) == Seq::<char>::empty(),
{
}

/// The joined text is as long as the parts together and one separator
/// between every two of them.
pub proof fn law_join_length(parts: Seq<Seq<char>>, sep: Seq<char>)
    requires
        parts.len() > 0,
    ensures
        join(parts, sep).len() == total_len(parts) + (parts.len() - 1) * sep.len(),
    decreases parts.len(),
{
    let n = parts.len() as int;
    let k = sep.len() as int;
    if n == 1 {
        assert(total_len(parts.drop_last()) == 0);
        assert(join(parts, sep) == parts[0]);
    } else {
        let rest = parts.drop_last();
        law_join_length(rest, sep);
        assert(join(parts, sep) == join(rest, sep) + sep + parts.last());
        assert(total_len(parts) == total_len(rest) + parts.last().len());
        assert((n - 1) * k == (n - 2) * k + k) by (nonlinear_arith);
    }
}

/// The sum of the lengths of `parts`.
pub open spec fn total_len(parts: Seq<Seq<char>>) -> int
    decreases parts.len(),
{
    if parts.len() == 0 {
        0
    } else {
        total_len(parts.drop_last()) + parts.last().len()
    }
}

} // verus!
