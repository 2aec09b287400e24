//! The page and DOM tools: the scripts and commands they send, and how they
//! read what the page answers.
use vstd::prelude::*;
use vstd::string::StringSliceAdditionalSpecFns;
use vstd::utf8::{decode_utf8, encode_utf8, is_char_boundary};
use vstd::string::StrSliceExecFns;
use crate::json::{get_in, json_bool, json_get, object_of, opt_get, opt_str, opt_view, str_in, str_json, Json, JsonNumber, JsonV, NumberV};
use crate::position::{find_bytes, first_match_from};
use crate::proxy_auth::{command_view, CdpCommand};
use crate::text::{concat3, decimal, push_char, str_eq, u64_to_decimal};

verus! {

/// A selector made safe to place between double quotes in a script: every
/// `"` preceded by a backslash, as `replace("\"", "\\\"")` does.
pub open spec fn escape_quotes(s: Seq<char>) -> Seq<char>
    decreases s.len(),
{
    if s.len() == 0 {
        Seq::empty()
    } else {
        escape_quotes(s.drop_last()) + (if s.last() == '"' { seq!['\\', '"'] } else { seq![s.last()] })
    }
}

/// Escapes the double quotes of a selector.
pub fn escape_selector(s: &str) -> (r: String)
    ensures
        r@ == escape_quotes(s@),
{
    let c = crate::text::chars_of(s);
    let mut out = String::new();
    let mut i: usize = 0;
    assert(s@.take(0) =~= Seq::<char>::empty());
    while i < c.len()
        invariant
            c@ == s@,
            i <= c@.len(),
            out@ == escape_quotes(s@.take(i as int)),
        decreases c@.len() - i,
    {
        assert(s@.take(i + 1).drop_last() =~= s@.take(i as int));
        assert(s@.take(i + 1).last() == c@[i as int]);
        if c[i] == '"' {
            push_char(&mut out, '\\');
            push_char(&mut out, '"');
        } else {
            push_char(&mut out, c[i]);
        }
        i = i + 1;
    }
    assert(s@.take(c@.len() as int) =~= s@);
    out
}

/// The parameters of a `Runtime.evaluate` that returns by value, awaiting
/// a promise when asked to.
pub open spec fn evaluate_params_of(expression: Seq<char>, await_promise: bool) -> JsonV {
    JsonV::Object(seq![("expression"@, JsonV::Str(expression)), ("returnByValue"@, JsonV::Bool(true))]
        + if await_promise { seq![("awaitPromise"@, JsonV::Bool(true))] } else { Seq::empty() })
}

/// A `Runtime.evaluate` of an expression, by value.
pub fn evaluate_command(expression: &str, await_promise: bool) -> (r: CdpCommand)
    ensures
        command_view(Some(r)) == Some(("Runtime.evaluate"@, Some(evaluate_params_of(expression@, await_promise)))),
{
    let mut m: Vec<(String, Json)> = Vec::new();
    m.push(("expression".to_owned(), str_json(expression)));
    m.push(("returnByValue".to_owned(), Json::Bool(true)));
    if await_promise {
        m.push(("awaitPromise".to_owned(), Json::Bool(true)));
    }
    let ghost e = seq![("expression"@, JsonV::Str(expression@)), ("returnByValue"@, JsonV::Bool(true))]
        + if await_promise { seq![("awaitPromise"@, JsonV::Bool(true))] } else { Seq::<(Seq<char>, JsonV)>::empty() };
    proof {
        assert(e.len() == m@.len());
    }
    CdpCommand { method: "Runtime.evaluate".to_owned(), params: Some(object_of(m, Ghost(e))) }
}

/// A command without parameters.
pub fn bare_command(method: &str) -> (r: CdpCommand)
    ensures
        command_view(Some(r)) == Some((method@, None::<JsonV>)),
{
    CdpCommand { method: method.to_owned(), params: None }
}

/// A command with an empty object as parameters.
pub fn empty_params_command(method: &str) -> (r: CdpCommand)
    ensures
        command_view(Some(r)) == Some((method@, Some(JsonV::Object(Seq::empty())))),
{
    CdpCommand { method: method.to_owned(), params: Some(Json::empty_object()) }
}

/// The `result` member of an evaluation's response.
pub open spec fn eval_result(resp: Option<JsonV>) -> Option<JsonV> {
    opt_get(resp, "result"@)
}

/// The arguments of `click_element`.
pub struct ClickElementTool {
    pub selector: String,
}

/// Where a click goes.
pub enum ClickTarget {
    /// The element is not on the page; the message.
    NotFound(String),
    /// The page gave no coordinates; the message.
    NoCoordinates(String),
    /// The centre of the element.
    At(JsonNumber, JsonNumber),
}

/// The script that finds an element and returns the centre of its box.
pub open spec fn click_script(selector: Seq<char>) -> Seq<char> {
    "(function() {\n                const el = document.querySelector(\""@ + escape_quotes(selector)
        + "\");\n                if (!el) return null;\n                const rect = el.getBoundingClientRect();\n                return {\n                    x: rect.left + rect.width / 2,\n                    y: rect.top + rect.height / 2\n                };\n            })()"@
}

/// The refusal when no element matches the selector.
pub open spec fn element_not_found_text(selector: Seq<char>) -> Seq<char> {
    "Element not found for selector: "@ + selector
}

/// The number stored at `key` of a value, when it is a number.
pub open spec fn number_at(v: JsonV, key: Seq<char>) -> Option<NumberV> {
    match json_get(v, key) {
        Some(JsonV::Number(n)) => Some(n),
        _ => None,
    }
}

impl ClickElementTool {
    /// The evaluation that locates the element.
    pub fn locate_command(&self) -> (r: CdpCommand)
        ensures
            command_view(Some(r)) == Some(("Runtime.evaluate"@, Some(evaluate_params_of(click_script(self.selector@), false)))),
    {
        let safe = escape_selector(self.selector.as_str());
        let script = concat3("(function() {\n                const el = document.querySelector(\"", safe.as_str(), "\");\n                if (!el) return null;\n                const rect = el.getBoundingClientRect();\n                return {\n                    x: rect.left + rect.width / 2,\n                    y: rect.top + rect.height / 2\n                };\n            })()");
        evaluate_command(script.as_str(), false)
    }

    /// Reads the evaluation's response: a `null` object result or no value
    /// means the element is missing; a value without numeric `x` and `y`
    /// gives no coordinates.
    pub fn target(&self, resp: Option<&Json>) -> (r: ClickTarget)
        ensures
            ({
                let ro = eval_result(opt_view(resp));
                let missing = (opt_str(opt_get(ro, "type"@)) == Some("object"@) && opt_str(opt_get(ro, "subtype"@)) == Some("null"@))
                    || opt_get(ro, "value"@) is None;
                match r {
                    ClickTarget::NotFound(m) => missing && m@ == element_not_found_text(self.selector@),
                    ClickTarget::NoCoordinates(m) => !missing
                        && (number_at(opt_get(ro, "value"@)->0, "x"@) is None || number_at(opt_get(ro, "value"@)->0, "y"@) is None)
                        && m@ == "Could not determine coordinates for the element."@,
                    ClickTarget::At(x, y) => !missing
                        && number_at(opt_get(ro, "value"@)->0, "x"@) == Some(crate::json::number_view(x))
                        && number_at(opt_get(ro, "value"@)->0, "y"@) == Some(crate::json::number_view(y)),
                }
            }),
    {
        proof { reveal_strlit(""); }
        let ro = get_in(resp, "result");
        let ty = str_in(get_in(ro, "type"));
        let sub = str_in(get_in(ro, "subtype"));
        let is_null_object = match (ty, sub) {
            (Some(t), Some(s)) => str_eq(t, "object") && str_eq(s, "null"),
            _ => false,
        };
        if is_null_object {
            return ClickTarget::NotFound(concat3("Element not found for selector: ", self.selector.as_str(), ""));
        }
        match get_in(ro, "value") {
            None => {
                proof { reveal_strlit(""); }
                ClickTarget::NotFound(concat3("Element not found for selector: ", self.selector.as_str(), ""))
            },
            Some(v) => {
                let x = match v.get("x") {
                    Some(j) => j.as_number(),
                    None => None,
                };
                let y = match v.get("y") {
                    Some(j) => j.as_number(),
                    None => None,
                };
                match (x, y) {
                    (Some(x), Some(y)) => ClickTarget::At(x, y),
                    _ => ClickTarget::NoCoordinates("Could not determine coordinates for the element.".to_owned()),
                }
            },
        }
    }
}

/// The parameters of one mouse event of a left click at a point.
pub open spec fn mouse_params_of(kind: Seq<char>, x: NumberV, y: NumberV) -> JsonV {
    JsonV::Object(seq![
        ("type"@, JsonV::Str(kind)),
        ("button"@, JsonV::Str("left"@)),
        ("x"@, JsonV::Number(x)),
        ("y"@, JsonV::Number(y)),
        ("clickCount"@, JsonV::Number(NumberV::PosInt(1))),
    ])
}

/// One mouse event of a left click at a point.
fn mouse_command(kind: &str, x: &JsonNumber, y: &JsonNumber) -> (r: CdpCommand)
    ensures
        command_view(Some(r)) == Some(("Input.dispatchMouseEvent"@, Some(mouse_params_of(kind@, crate::json::number_view(*x), crate::json::number_view(*y))))),
{
    let mut m: Vec<(String, Json)> = Vec::new();
    m.push(("type".to_owned(), str_json(kind)));
    m.push(("button".to_owned(), str_json("left")));
    m.push(("x".to_owned(), Json::Number(x.copy())));
    m.push(("y".to_owned(), Json::Number(y.copy())));
    m.push(("clickCount".to_owned(), Json::Number(JsonNumber::PosInt(1))));
    let ghost e = seq![
        ("type"@, JsonV::Str(kind@)),
        ("button"@, JsonV::Str("left"@)),
        ("x"@, JsonV::Number(crate::json::number_view(*x))),
        ("y"@, JsonV::Number(crate::json::number_view(*y))),
        ("clickCount"@, JsonV::Number(NumberV::PosInt(1))),
    ];
    CdpCommand { method: "Input.dispatchMouseEvent".to_owned(), params: Some(object_of(m, Ghost(e))) }
}

impl ClickElementTool {
    /// The click at the point the probe found: the left button pressed,
    /// then released, once, with the coordinates as the probe gave them.
    pub fn click_commands(x: &JsonNumber, y: &JsonNumber) -> (r: Vec<CdpCommand>)
        ensures
            r@.len() == 2,
            command_view(Some(r@[0])) == Some(("Input.dispatchMouseEvent"@,
                Some(mouse_params_of("mousePressed"@, crate::json::number_view(*x), crate::json::number_view(*y))))),
            command_view(Some(r@[1])) == Some(("Input.dispatchMouseEvent"@,
                Some(mouse_params_of("mouseReleased"@, crate::json::number_view(*x), crate::json::number_view(*y))))),
    {
        let mut r: Vec<CdpCommand> = Vec::new();
        r.push(mouse_command("mousePressed", x, y));
        r.push(mouse_command("mouseReleased", x, y));
        r
    }
}

/// An integer in decimal, with a minus sign when negative.
pub open spec fn int_text(i: int) -> Seq<char> {
    if i < 0 { "-"@ + decimal((-i) as nat) } else { decimal(i as nat) }
}

/// Renders an `i32` in decimal.
pub fn i32_to_decimal(v: i32) -> (r: String)
    ensures
        r@ == int_text(v as int),
{
    if v < 0 {
        let m: i64 = -(v as i64);
        let n = u64_to_decimal(m as u64);
        let r = concat3("-", n.as_str(), "");
        proof { reveal_strlit(""); assert(r@ =~= int_text(v as int)); }
        r
    } else {
        u64_to_decimal(v as u64)
    }
}

/// The arguments of `scroll`.
pub struct ScrollTool {
    /// Pixels to scroll to the right (negative: to the left).
    pub x: Option<i32>,
    /// Pixels to scroll down (negative: up).
    pub y: Option<i32>,
    /// Viewport heights to scroll down, as the number's decimal text.
    pub pages: Option<String>,
    /// The element to bring into view.
    pub selector: Option<String>,
}

/// The script that brings an element into view and tells whether it exists.
pub open spec fn scroll_into_view_script(selector: Seq<char>) -> Seq<char> {
    "(function() {\n                    const el = document.querySelector(\""@ + escape_quotes(selector)
        + "\");\n                    if (el) {\n                        el.scrollIntoView({ behavior: 'instant', block: 'center' });\n                        return true;\n                    }\n                    return false;\n                })()"@
}

impl ScrollTool {
    /// The script: to the element when a selector is given, else by whole
    /// viewport heights when given, else by the pixels (0 when absent).
    pub open spec fn script_of(&self) -> Seq<char> {
        match self.selector {
            Some(sel) => scroll_into_view_script(sel@),
            None => match self.pages {
                Some(p) => "window.scrollBy({ left: 0, top: window.innerHeight * "@ + p@ + ", behavior: 'instant' })"@,
                None => "window.scrollBy({ left: "@ + int_text(match self.x { Some(x) => x as int, None => 0 })
                    + ", top: "@ + int_text(match self.y { Some(y) => y as int, None => 0 }) + ", behavior: 'instant' })"@,
            },
        }
    }

    /// The evaluation that scrolls.
    pub fn scroll_command(&self) -> (r: CdpCommand)
        ensures
            command_view(Some(r)) == Some(("Runtime.evaluate"@, Some(evaluate_params_of(self.script_of(), false)))),
    {
        let script = match &self.selector {
            Some(sel) => {
                let safe = escape_selector(sel.as_str());
                concat3("(function() {\n                    const el = document.querySelector(\"", safe.as_str(), "\");\n                    if (el) {\n                        el.scrollIntoView({ behavior: 'instant', block: 'center' });\n                        return true;\n                    }\n                    return false;\n                })()")
            },
            None => match &self.pages {
                Some(p) => concat3("window.scrollBy({ left: 0, top: window.innerHeight * ", p.as_str(), ", behavior: 'instant' })"),
                None => {
                    let dx = i32_to_decimal(match self.x { Some(x) => x, None => 0 });
                    let dy = i32_to_decimal(match self.y { Some(y) => y, None => 0 });
                    let head = concat3("window.scrollBy({ left: ", dx.as_str(), ", top: ");
                    let r = concat3(head.as_str(), dy.as_str(), ", behavior: 'instant' })");
                    proof { assert(r@ =~= self.script_of()); }
                    r
                },
            },
        };
        evaluate_command(script.as_str(), false)
    }

    /// The answer: scrolled, unless a selector was given and the page did
    /// not report the element as found.
    pub fn outcome(&self, resp: Option<&Json>) -> (r: Result<String, String>)
        ensures
            match self.selector {
                Some(sel) => if (match opt_get(eval_result(opt_view(resp)), "value"@) {
                    Some(v) => json_bool(v) == Some(true),
                    None => false,
                }) {
                    r matches Ok(m) && m@ == "Successfully scrolled."@
                } else {
                    r matches Err(e) && e@ == "Element not found for scrolling: "@ + sel@
                },
                None => r matches Ok(m) && m@ == "Successfully scrolled."@,
            },
    {
        match &self.selector {
            Some(sel) => {
                let found = match get_in(get_in(resp, "result"), "value") {
                    Some(v) => match v.as_bool() {
                        Some(b) => b,
                        None => false,
                    },
                    None => false,
                };
                if found {
                    Ok("Successfully scrolled.".to_owned())
                } else {
                    proof { reveal_strlit(""); }
                    Err(concat3("Element not found for scrolling: ", sel.as_str(), ""))
                }
            },
            None => Ok("Successfully scrolled.".to_owned()),
        }
    }
}

/// The arguments of `fill_input`.
pub struct FillInputTool {
    pub selector: String,
    pub text: String,
}

/// The script that focuses an element and tells whether it exists.
pub open spec fn focus_script(selector: Seq<char>) -> Seq<char> {
    "(function() {\n                const el = document.querySelector(\""@ + escape_quotes(selector)
        + "\");\n                if (!el) return false;\n                el.focus();\n                return true;\n            })()"@
}

impl FillInputTool {
    /// The evaluation that focuses the element.
    pub fn focus_command(&self) -> (r: CdpCommand)
        ensures
            command_view(Some(r)) == Some(("Runtime.evaluate"@, Some(evaluate_params_of(focus_script(self.selector@), false)))),
    {
        let safe = escape_selector(self.selector.as_str());
        let script = concat3("(function() {\n                const el = document.querySelector(\"", safe.as_str(), "\");\n                if (!el) return false;\n                el.focus();\n                return true;\n            })()");
        evaluate_command(script.as_str(), false)
    }

    /// Whether the element was found and focused: the evaluation returned
    /// `true`.
    pub fn focused(&self, resp: Option<&Json>) -> (b: bool)
        ensures
            b == (match opt_get(eval_result(opt_view(resp)), "value"@) {
                Some(v) => json_bool(v) == Some(true),
                None => false,
            }),
    {
        match get_in(get_in(resp, "result"), "value") {
            Some(v) => match v.as_bool() {
                Some(b) => b,
                None => false,
            },
            None => false,
        }
    }

    /// The command that types the text into the focused element.
    pub fn insert_command(&self) -> (r: CdpCommand)
        ensures
            command_view(Some(r)) == Some(("Input.insertText"@, Some(JsonV::Object(seq![("text"@, JsonV::Str(self.text@))])))),
    {
        let mut m: Vec<(String, Json)> = Vec::new();
        m.push(("text".to_owned(), str_json(self.text.as_str())));
        let ghost e = seq![("text"@, JsonV::Str(self.text@))];
        CdpCommand { method: "Input.insertText".to_owned(), params: Some(object_of(m, Ghost(e))) }
    }

    /// The answer once the text is typed.
    pub fn filled_message(&self) -> (r: String)
        ensures
            r@ == "Successfully filled input '"@ + self.selector@ + "' with text."@,
    {
        concat3("Successfully filled input '", self.selector.as_str(), "' with text.")
    }

    /// The refusal when no element matches.
    pub fn not_found_message(&self) -> (r: String)
        ensures
            r@ == element_not_found_text(self.selector@),
    {
        let r = concat3("Element not found for selector: ", self.selector.as_str(), "");
        proof { reveal_strlit(""); assert(r@ =~= element_not_found_text(self.selector@)); }
        r
    }
}

/// The arguments of `capture_screenshot`.
pub struct CaptureScreenshotTool {
    /// `png` when absent.
    pub format: Option<String>,
    pub quality: Option<u32>,
    /// The whole page rather than the viewport; no when absent.
    pub full_page: Option<bool>,
}

/// The model of a clip's width and height.
pub open spec fn clip_view(clip: Option<(JsonNumber, JsonNumber)>) -> Option<(NumberV, NumberV)> {
    match clip {
        Some((w, h)) => Some((crate::json::number_view(w), crate::json::number_view(h))),
        None => None,
    }
}

impl CaptureScreenshotTool {
    /// The image format.
    pub open spec fn format_of(&self) -> Seq<char> {
        match self.format {
            Some(f) => f@,
            None => "png"@,
        }
    }

    /// The command that reads the page's layout metrics, for a full page.
    pub fn layout_metrics_command(&self) -> (r: CdpCommand)
        ensures
            command_view(Some(r)) == Some(("Page.getLayoutMetrics"@, Some(JsonV::Object(Seq::empty())))),
    {
        empty_params_command("Page.getLayoutMetrics")
    }

    /// Whether the page's layout metrics are needed first.
    pub fn wants_full_page(&self) -> (b: bool)
        ensures
            b == (self.full_page == Some(true)),
    {
        match self.full_page {
            Some(b) => b,
            None => false,
        }
    }

    /// Whether the format takes a quality: `jpeg` and `webp` do, `png` not.
    pub open spec fn takes_quality(&self) -> bool {
        self.format_of() == "jpeg"@ || self.format_of() == "webp"@
    }

    /// The quality sent: the one given, else 100.
    pub open spec fn quality_of(&self) -> u32 {
        match self.quality {
            Some(q) => q,
            None => 100,
        }
    }

    /// The parameters of `Page.captureScreenshot`: the format from the
    /// surface, the quality (100 when not given) for `jpeg` and `webp` only,
    /// and for a full page the clip of the whole content (given as width and
    /// height) captured beyond the viewport.
    pub open spec fn capture_params_of(&self, clip: Option<(NumberV, NumberV)>) -> JsonV {
        JsonV::Object(seq![("format"@, JsonV::Str(self.format_of())), ("fromSurface"@, JsonV::Bool(true))]
            + (if self.takes_quality() {
                seq![("quality"@, JsonV::Number(NumberV::PosInt(self.quality_of() as u64)))]
            } else {
                Seq::empty()
            })
            + (match clip {
                Some((w, h)) => seq![
                    ("clip"@, JsonV::Object(seq![
                        ("x"@, JsonV::Number(NumberV::PosInt(0))),
                        ("y"@, JsonV::Number(NumberV::PosInt(0))),
                        ("width"@, JsonV::Number(w)),
                        ("height"@, JsonV::Number(h)),
                        ("scale"@, JsonV::Number(NumberV::PosInt(1))),
                    ])),
                    ("captureBeyondViewport"@, JsonV::Bool(true)),
                ],
                None => Seq::empty(),
            }))
    }

    /// The capture command.
    pub fn capture_command(&self, clip: Option<(JsonNumber, JsonNumber)>) -> (r: CdpCommand)
        ensures
            command_view(Some(r)) == Some(("Page.captureScreenshot"@, Some(self.capture_params_of(clip_view(clip))))),
    {
        let fmt = match &self.format {
            Some(f) => f.clone(),
            None => "png".to_owned(),
        };
        let ghost cv = clip_view(clip);
        let mut m: Vec<(String, Json)> = Vec::new();
        let lossy = str_eq(fmt.as_str(), "jpeg") || str_eq(fmt.as_str(), "webp");
        m.push(("format".to_owned(), Json::Str(fmt)));
        m.push(("fromSurface".to_owned(), Json::Bool(true)));
        if lossy {
            let q: u32 = match self.quality {
                Some(q) => q,
                None => 100,
            };
            m.push(("quality".to_owned(), Json::Number(JsonNumber::PosInt(q as u64))));
        }
        match clip {
            Some((w, h)) => {
                let ghost wv = crate::json::number_view(w);
                let ghost hv = crate::json::number_view(h);
                let mut c: Vec<(String, Json)> = Vec::new();
                c.push(("x".to_owned(), Json::Number(JsonNumber::PosInt(0))));
                c.push(("y".to_owned(), Json::Number(JsonNumber::PosInt(0))));
                c.push(("width".to_owned(), Json::Number(w)));
                c.push(("height".to_owned(), Json::Number(h)));
                c.push(("scale".to_owned(), Json::Number(JsonNumber::PosInt(1))));
                let ghost ce = seq![
                    ("x"@, JsonV::Number(NumberV::PosInt(0))),
                    ("y"@, JsonV::Number(NumberV::PosInt(0))),
                    ("width"@, JsonV::Number(wv)),
                    ("height"@, JsonV::Number(hv)),
                    ("scale"@, JsonV::Number(NumberV::PosInt(1))),
                ];
                m.push(("clip".to_owned(), object_of(c, Ghost(ce))));
                m.push(("captureBeyondViewport".to_owned(), Json::Bool(true)));
            },
            None => {},
        }
        let ghost e = match self.capture_params_of(cv) {
            JsonV::Object(ms) => ms,
            _ => Seq::empty(),
        };
        proof {
            assert(e.len() == m@.len());
        }
        CdpCommand { method: "Page.captureScreenshot".to_owned(), params: Some(object_of(m, Ghost(e))) }
    }

    /// The image of the capture's response: its base64 data and MIME type.
    pub fn image(&self, resp: Option<&Json>) -> (r: Result<(String, String), String>)
        ensures
            match r {
                Ok((data, mime)) => opt_str(opt_get(opt_view(resp), "data"@)) == Some(data@)
                    && mime@ == "image/"@ + self.format_of(),
                Err(e) => opt_str(opt_get(opt_view(resp), "data"@)) is None
                    && e@ == "No data returned from Page.captureScreenshot"@,
            },
    {
        match str_in(get_in(resp, "data")) {
            Some(d) => {
                let fmt = match &self.format {
                    Some(f) => f.clone(),
                    None => "png".to_owned(),
                };
                let mime = concat3("image/", fmt.as_str(), "");
                proof { reveal_strlit(""); assert(mime@ =~= "image/"@ + self.format_of()); }
                Ok((d.to_owned(), mime))
            },
            None => Err("No data returned from Page.captureScreenshot".to_owned()),
        }
    }
}

/// The arguments of `reload`.
pub struct ReloadTool {
    pub instance_id: Option<String>,
}

impl ReloadTool {
    /// The reload command.
    pub fn reload_command(&self) -> (r: CdpCommand)
        ensures
            command_view(Some(r)) == Some(("Page.reload"@, Some(JsonV::Object(Seq::empty())))),
    {
        empty_params_command("Page.reload")
    }
}

/// The arguments of `evaluate_js`.
pub struct EvaluateJsTool {
    pub expression: String,
}

impl EvaluateJsTool {
    /// The evaluation, by value, awaiting a promise.
    pub fn evaluate(&self) -> (r: CdpCommand)
        ensures
            command_view(Some(r)) == Some(("Runtime.evaluate"@, Some(evaluate_params_of(self.expression@, true)))),
    {
        evaluate_command(self.expression.as_str(), true)
    }
}

/// The arguments of `get_performance_metrics`.
pub struct GetPerformanceMetricsTool {
    pub instance_id: Option<String>,
    pub tab_id: Option<String>,
}

impl GetPerformanceMetricsTool {
    /// The metrics command.
    pub fn metrics_command(&self) -> (r: CdpCommand)
        ensures
            command_view(Some(r)) == Some(("Performance.getMetrics"@, Some(JsonV::Object(Seq::empty())))),
    {
        empty_params_command("Performance.getMetrics")
    }
}

/// The arguments of `connect_chrome`.
pub struct ConnectChromeTool {
    pub url: String,
}

impl ConnectChromeTool {
    /// The answer once connected.
    pub fn connected_message(&self) -> (r: String)
        ensures
            r@ == "Successfully connected to Chrome at "@ + self.url@,
    {
        let r = concat3("Successfully connected to Chrome at ", self.url.as_str(), "");
        proof { reveal_strlit(""); assert(r@ =~= "Successfully connected to Chrome at "@ + self.url@); }
        r
    }
}

/// The arguments of `inspect_dom`.
pub struct InspectDomTool {
    /// The text to look for; the whole document when absent.
    pub query: Option<String>,
    /// Characters of context before the match; 200 when absent.
    pub before: Option<u32>,
    /// Characters of context after the match; 200 when absent.
    pub after: Option<u32>,
}

/// The window around a match at `pos`: `before` characters before it (not
/// past the start) to `after` characters after its end (not past the end).
pub open spec fn window(len: int, pos: int, qlen: int, before: int, after: int) -> (int, int) {
    (if pos >= before { pos - before } else { 0 }, if pos + qlen + after <= len { pos + qlen + after } else { len })
}

impl InspectDomTool {
    /// Context before the match.
    pub open spec fn before_of(&self) -> nat {
        match self.before { Some(b) => b as nat, None => 200 }
    }

    /// Context after the match.
    pub open spec fn after_of(&self) -> nat {
        match self.after { Some(a) => a as nat, None => 200 }
    }

    /// The evaluation that reads the document's HTML.
    pub fn html_command(&self) -> (r: CdpCommand)
        ensures
            command_view(Some(r)) == Some(("Runtime.evaluate"@, Some(evaluate_params_of("document.documentElement.outerHTML"@, false)))),
    {
        evaluate_command("document.documentElement.outerHTML", false)
    }

    /// The HTML in the evaluation's response, empty when there is none.
    pub fn html_of(resp: Option<&Json>) -> (r: String)
        ensures
            r@ == match opt_str(opt_get(eval_result(opt_view(resp)), "value"@)) {
                Some(h) => h,
                None => Seq::empty(),
            },
    {
        match str_in(get_in(get_in(resp, "result"), "value")) {
            Some(h) => h.to_owned(),
            None => String::new(),
        }
    }

    /// The answer: the whole HTML without a query; otherwise the first match
    /// with its context, counted in characters, or that there is none.  The
    /// position is the byte offset of the match.
    pub fn report(&self, html: &str) -> (r: String)
        ensures
            self.query is None ==> r@ == html@,
            self.query matches Some(q) ==> r@ == match first_match_from(encode_utf8(html@), encode_utf8(q@), 0) {
                None => "Query '"@ + q@ + "' not found in the DOM."@,
                Some(pos) => {
                    let w = window(html@.len() as int, chars_before(html@, pos) as int, q@.len() as int, self.before_of() as int, self.after_of() as int);
                    "Found '"@ + q@ + "' at position "@ + decimal(pos as nat) + ". Context (before="@
                        + decimal(self.before_of()) + ", after="@ + decimal(self.after_of()) + "):\n\n[...]\n"@
                        + html@.subrange(w.0, w.1) + "\n[...]"@
                },
            },
    {
        let q = match &self.query {
            Some(q) => q,
            None => return html.to_owned(),
        };
        let hb = html.as_bytes();
        let qb = q.as_str().as_bytes();
        let pos = match find_bytes(hb, qb) {
            Some(p) => p,
            None => return concat3("Query '", q.as_str(), "' not found in the DOM."),
        };
        proof {
            crate::position::lemma_first_match_found(hb@, qb@, 0);
            if qb@.len() == 0 {
                assert(hb@.subrange(0, 0) =~= qb@);
                assert(crate::position::matches_at(hb@, qb@, 0));
            }
            lemma_match_on_boundary(html@, q@, pos as int);
        }
        let (pre, _) = html.split_at(pos);
        proof {
            vstd::utf8::encode_utf8_valid_utf8(html@);
            vstd::utf8::decode_utf8_split(html.spec_bytes(), pos as int);
            vstd::utf8::encode_utf8_decode_utf8(html@);
            vstd::utf8::encode_utf8_decode_utf8(pre@);
            assert(pre@ == decode_utf8(html.spec_bytes().subrange(0, pos as int)));
        }
        let p = pre.unicode_len();
        let total = html.unicode_len();
        let ql = q.as_str().unicode_len();
        let before: u32 = match self.before { Some(b) => b, None => 200 };
        let after: u32 = match self.after { Some(a) => a, None => 200 };
        let start: usize = if p >= before as usize { p - before as usize } else { 0 };
        let end: usize = if ql <= total - p && (after as usize) <= total - p - ql { p + ql + after as usize } else { total };
        let snippet = html.substring_char(start, end);
        let n_pos = u64_to_decimal(pos as u64);
        let n_before = u64_to_decimal(before as u64);
        let n_after = u64_to_decimal(after as u64);
        let a = concat3("Found '", q.as_str(), "' at position ");
        let b = concat3(a.as_str(), n_pos.as_str(), ". Context (before=");
        let c = concat3(b.as_str(), n_before.as_str(), ", after=");
        let d = concat3(c.as_str(), n_after.as_str(), "):\n\n[...]\n");
        concat3(d.as_str(), snippet, "\n[...]")
    }
}

/// The characters of the page before a byte offset.
pub open spec fn chars_before(html: Seq<char>, pos: int) -> nat {
    decode_utf8(encode_utf8(html).subrange(0, pos)).len()
}

/// A match of the query's bytes starts on a character boundary of the page.
proof fn lemma_match_on_boundary(html: Seq<char>, q: Seq<char>, pos: int)
    requires
        crate::position::matches_at(encode_utf8(html), encode_utf8(q), pos),
        encode_utf8(q).len() == 0 ==> pos == 0,
    ensures
        is_char_boundary(encode_utf8(html), pos),
{
    let hb = encode_utf8(html);
    let qb = encode_utf8(q);
    vstd::utf8::encode_utf8_valid_utf8(html);
    vstd::utf8::encode_utf8_valid_utf8(q);
    vstd::utf8::is_char_boundary_start_end_of_seq(hb);
    vstd::utf8::is_char_boundary_start_end_of_seq(qb);
    if qb.len() > 0 {
        if pos < hb.len() {
            vstd::utf8::is_char_boundary_iff_not_is_continuation_byte(qb, 0);
            assert(hb.subrange(pos, pos + qb.len())[0] == qb[0]);
            assert(hb[pos] == qb[0]);
            vstd::utf8::is_char_boundary_iff_not_is_continuation_byte(hb, pos);
        }
    }
}


/// A `window.scrollBy` to the right by `left` and down by `top`.
pub open spec fn scroll_by(left: Seq<char>, top: Seq<char>) -> Seq<char> {
    "window.scrollBy({ left: "@ + left + ", top: "@ + top + ", behavior: 'instant' })"@
}

/// A decimal rendering starts with a digit.
proof fn lemma_decimal_starts_with_digit(n: nat)
    ensures
        decimal(n).len() >= 1,
        '0' <= decimal(n)[0] <= '9',
    decreases n,
{
    crate::text::lemma_decimal_nonempty(n);
    if n >= 10 {
        lemma_decimal_starts_with_digit(n / 10);
        assert(decimal(n)[0] == decimal(n / 10)[0]);
    }
}

/// Different integers have different renderings.
pub proof fn lemma_int_text_injective(a: int, b: int)
    requires
        int_text(a) == int_text(b),
    ensures
        a == b,
{
    reveal_strlit("-");
    if a < 0 && b < 0 {
        assert(int_text(a).subrange(1, int_text(a).len() as int) =~= decimal((-a) as nat));
        assert(int_text(b).subrange(1, int_text(b).len() as int) =~= decimal((-b) as nat));
        crate::text::lemma_decimal_injective((-a) as nat, (-b) as nat);
    } else if a >= 0 && b >= 0 {
        crate::text::lemma_decimal_injective(a as nat, b as nat);
    } else if a < 0 {
        lemma_decimal_starts_with_digit(b as nat);
        assert(int_text(a)[0] == '-');
    } else {
        lemma_decimal_starts_with_digit(a as nat);
        assert(int_text(b)[0] == '-');
    }
}

/// Scrolling by pixels scrolls right by `x` and down by `y` (0 when
/// absent); scrolling by pages scrolls down by that many viewport heights
/// and not sideways.
pub proof fn law_scroll_amounts(t: ScrollTool)
    ensures
        t.selector is None && t.pages is None ==> t.script_of() == scroll_by(
            int_text(match t.x { Some(x) => x as int, None => 0 }),
            int_text(match t.y { Some(y) => y as int, None => 0 }),
        ),
        t.selector is None ==> (t.pages matches Some(p) ==> t.script_of() == scroll_by("0"@, "window.innerHeight * "@ + p@)),
{
    reveal_strlit("window.scrollBy({ left: ");
    reveal_strlit(", top: ");
    reveal_strlit(", behavior: 'instant' })");
    reveal_strlit("window.scrollBy({ left: 0, top: window.innerHeight * ");
    reveal_strlit("0");
    reveal_strlit("window.innerHeight * ");
    if t.selector is None {
        match t.pages {
            Some(p) => {
                assert(t.script_of() =~= scroll_by("0"@, "window.innerHeight * "@ + p@));
            },
            None => {
                assert(t.script_of() =~= scroll_by(
                    int_text(match t.x { Some(x) => x as int, None => 0 }),
                    int_text(match t.y { Some(y) => y as int, None => 0 }),
                ));
            },
        }
    }
}

/// Scrolling by pixels tells the amounts apart: two scrolls that differ in
/// how far they go, sideways or down, give different scripts.
pub proof fn law_scroll_amounts_are_told_apart(left1: int, top1: int, left2: int, top2: int)
    requires
        scroll_by(int_text(left1), int_text(top1)) == scroll_by(int_text(left2), int_text(top2)),
    ensures
        left1 == left2,
        top1 == top2,
{
    reveal_strlit("window.scrollBy({ left: ");
    reveal_strlit(", top: ");
    reveal_strlit(", behavior: 'instant' })");
    let s1 = scroll_by(int_text(left1), int_text(top1));
    let l1 = int_text(left1);
    let l2 = int_text(left2);
    let t1 = int_text(top1);
    let t2 = int_text(top2);
    let pre = "window.scrollBy({ left: "@;
    let mid = ", top: "@;
    let post = ", behavior: 'instant' })"@;
    // the left amount ends at the first comma after the prefix
    lemma_int_text_has_no_comma(left1);
    lemma_int_text_has_no_comma(left2);
    lemma_int_text_has_no_comma(top1);
    lemma_int_text_has_no_comma(top2);
    let p0: int = pre.len() as int;
    let a1: int = l1.len() as int;
    let a2: int = l2.len() as int;
    let b1: int = t1.len() as int;
    let b2: int = t2.len() as int;
    assert(s1 =~= pre + l1 + mid + t1 + post);
    assert(scroll_by(l2, t2) =~= pre + l2 + mid + t2 + post);
    if l1.len() != l2.len() {
        if l1.len() < l2.len() {
            assert(s1[p0 + a1] == ',');
            assert(scroll_by(l2, t2)[p0 + a1] == l2[a1]);
        } else {
            assert(scroll_by(l2, t2)[p0 + a2] == ',');
            assert(s1[p0 + a2] == l1[a2]);
        }
    }
    assert(l1.len() == l2.len());
    assert forall|i: int| 0 <= i < l1.len() implies l1[i] == l2[i] by {
        assert(s1[p0 + i] == l1[i]);
        assert(scroll_by(l2, t2)[p0 + i] == l2[i]);
    }
    assert(l1 =~= l2);
    lemma_int_text_injective(left1, left2);
    let base: int = p0 + a1 + mid.len() as int;
    if t1.len() != t2.len() {
        if t1.len() < t2.len() {
            assert(s1[base + b1] == ',');
            assert(scroll_by(l2, t2)[base + b1] == t2[b1]);
        } else {
            assert(scroll_by(l2, t2)[base + b2] == ',');
            assert(s1[base + b2] == t1[b2]);
        }
    }
    assert(t1.len() == t2.len());
    assert forall|i: int| 0 <= i < t1.len() implies t1[i] == t2[i] by {
        assert(s1[base + i] == t1[i]);
        assert(scroll_by(l2, t2)[base + i] == t2[i]);
    }
    assert(t1 =~= t2);
    lemma_int_text_injective(top1, top2);
}

/// A rendering holds no comma.
proof fn lemma_int_text_has_no_comma(a: int)
    ensures
        forall|i: int| 0 <= i < int_text(a).len() ==> int_text(a)[i] != ',',
{
    reveal_strlit("-");
    let n: nat = if a < 0 { (-a) as nat } else { a as nat };
    lemma_decimal_digits(n);
    if a < 0 {
        assert forall|i: int| 0 <= i < int_text(a).len() implies int_text(a)[i] != ',' by {
            if i > 0 {
                assert(int_text(a)[i] == decimal(n)[i - 1]);
            }
        }
    }
}

/// Every character of a decimal rendering is a digit.
proof fn lemma_decimal_digits(n: nat)
    ensures
        forall|i: int| 0 <= i < decimal(n).len() ==> '0' <= #[trigger] decimal(n)[i] <= '9',
    decreases n,
{
    if n >= 10 {
        lemma_decimal_digits(n / 10);
        assert forall|i: int| 0 <= i < decimal(n).len() implies '0' <= #[trigger] decimal(n)[i] <= '9' by {
            if i < decimal(n).len() - 1 {
                assert(decimal(n)[i] == decimal(n / 10)[i]);
            }
        }
    }
}

} // verus!
