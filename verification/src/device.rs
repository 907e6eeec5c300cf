//! Device list and device properties: reading `adb devices -l`,
//! `wm size` / `wm density` and `getprop` output.

use vstd::prelude::*;
use crate::model::{Device, DeviceInfo, DeviceView, views};
use crate::text::{find_char, after_first, chars_of, concat, copy_range, decimal, fmt_decimal, lines, opt_chars, opt_string, parse_unsigned, parse_unsigned_exec, second_field, second_field_exec, seqs, split_lines, split_once, split_once_exec, split_words, starts_with, starts_with_exec, string_of, trim, trim_chars, trim_end, trim_start, words, is_ws, is_digit, lemma_find_char_at, lemma_lines_cons};

verus! {

broadcast use vstd::string::group_string_axioms;

/// The text after `tag` in the last of `ps` that starts with `tag`.
pub open spec fn last_tagged(ps: Seq<Seq<char>>, tag: Seq<char>) -> Option<Seq<char>>
    decreases ps.len(),
{
    if ps.len() == 0 {
        None
    } else if starts_with(ps.last(), tag) {
        Some(ps.last().skip(tag.len() as int))
    } else {
        last_tagged(ps.drop_last(), tag)
    }
}

/// The device that one line of `adb devices -l` describes: serial and state
/// are the first two fields; `model:` and `device:` fields give the model
/// and the device name (the last such field wins).
pub open spec fn device_of_line(line: Seq<char>) -> Option<DeviceView> {
    let parts = words(line);
    if parts.len() >= 2 {
        Some(
            DeviceView {
                serial: parts[0],
                status: parts[1],
                model: last_tagged(parts.skip(2), "model:"@),
                device_type: last_tagged(parts.skip(2), "device:"@),
            },
        )
    } else {
        None
    }
}

proof fn lemma_tag_prefix(tag: Seq<char>, v: Seq<char>)
    ensures
        starts_with(tag + v, tag),
        (tag + v).skip(tag.len() as int) == v,
{
    assert((tag + v).subrange(0, tag.len() as int) =~= tag);
    assert((tag + v).skip(tag.len() as int) =~= v);
}

proof fn lemma_not_tag(s: Seq<char>, tag: Seq<char>)
    requires
        s.len() > 0,
        tag.len() > 0,
        s[0] != tag[0],
    ensures
        !starts_with(s, tag),
{
    if starts_with(s, tag) {
        assert(s.subrange(0, tag.len() as int)[0] == s[0]);
    }
}

/// A device line whose fields after serial and state are just `model:<m>`
/// has model `m` and no device name, whatever the serial and state are.
pub proof fn law_device_model_field(line: Seq<char>, serial: Seq<char>, state: Seq<char>, m: Seq<char>)
    requires
        words(line) == seq![serial, state, "model:"@ + m],
    ensures
        device_of_line(line) == Some(
            DeviceView { serial: serial, status: state, model: Some(m), device_type: None },
        ),
{
    reveal_strlit("model:");
    reveal_strlit("device:");
    let ps = words(line).skip(2);
    let f = "model:"@ + m;
    assert(ps =~= seq![f]);
    assert(f[0] == 'm');
    lemma_tag_prefix("model:"@, m);
    lemma_not_tag(f, "device:"@);
    assert(ps.drop_last() =~= Seq::<Seq<char>>::empty());
    assert(ps.last() == f);
    assert(last_tagged(ps, "model:"@) == Some(m));
    assert(last_tagged(ps, "device:"@) == last_tagged(ps.drop_last(), "device:"@));
}

/// The fields of a line of `adb devices -l` give the device: serial and
/// state first, the model from `model:`, the device name from `device:`;
/// the `product:` and `transport_id:` fields name neither.
pub proof fn law_device_line_fields(
    line: Seq<char>,
    serial: Seq<char>,
    state: Seq<char>,
    product: Seq<char>,
    m: Seq<char>,
    d: Seq<char>,
    t: Seq<char>,
)
    requires
        words(line) == seq![
            serial,
            state,
            "product:"@ + product,
            "model:"@ + m,
            "device:"@ + d,
            "transport_id:"@ + t,
        ],
    ensures
        device_of_line(line) == Some(
            DeviceView { serial: serial, status: state, model: Some(m), device_type: Some(d) },
        ),
{
    reveal_strlit("model:");
    reveal_strlit("device:");
    reveal_strlit("product:");
    reveal_strlit("transport_id:");
    let ps = words(line).skip(2);
    let f0 = "product:"@ + product;
    let f1 = "model:"@ + m;
    let f2 = "device:"@ + d;
    let f3 = "transport_id:"@ + t;
    assert(ps =~= seq![f0, f1, f2, f3]);
    assert(f0[0] == 'p' && f1[0] == 'm' && f2[0] == 'd' && f3[0] == 't');
    lemma_tag_prefix("model:"@, m);
    lemma_tag_prefix("device:"@, d);
    lemma_not_tag(f3, "model:"@);
    lemma_not_tag(f2, "model:"@);
    lemma_not_tag(f3, "device:"@);
    let p3 = ps.drop_last();
    let p2 = p3.drop_last();
    assert(p3 =~= seq![f0, f1, f2]);
    assert(p2 =~= seq![f0, f1]);
    assert(last_tagged(ps, "model:"@) == last_tagged(p3, "model:"@));
    assert(last_tagged(p3, "model:"@) == last_tagged(p2, "model:"@));
    assert(last_tagged(p2, "model:"@) == Some(m));
    assert(last_tagged(ps, "device:"@) == last_tagged(p3, "device:"@));
    assert(last_tagged(p3, "device:"@) == Some(d));
}

/// The devices of an `adb devices -l` listing: every line after the header
/// with at least two fields, in order.
pub open spec fn devices_of(output: Seq<char>) -> Seq<DeviceView> {
    after_first(lines(output)).filter_map(|l: Seq<char>| device_of_line(l))
}

/// The header of `adb devices -l` is no device: output made of the header
/// line and one more line lists exactly the device of that line, if it has
/// serial and state.
pub proof fn law_devices_skip_header(line: Seq<char>)
    requires
        forall|i: int| 0 <= i < line.len() ==> line[i] != '\n',
        line.len() > 0 ==> line.last() != '\r',
    ensures
        devices_of("List of devices attached\n"@ + line + "\n"@) == match device_of_line(line) {
            Some(d) => seq![d],
            None => Seq::<DeviceView>::empty(),
        },
{
    reveal_strlit("List of devices attached\n");
    reveal_strlit("List of devices attached");
    reveal_strlit("\n");
    let header = "List of devices attached"@;
    assert forall|i: int| 0 <= i < header.len() implies header[i] != '\n' by {}
    lemma_lines_cons(line, Seq::<char>::empty());
    lemma_lines_cons(header, line + "\n"@);
    assert(line + "\n"@ =~= line + "\n"@ + Seq::<char>::empty());
    assert("List of devices attached\n"@ + line + "\n"@ =~= header + "\n"@ + (line + "\n"@));
    assert(lines(Seq::<char>::empty()) == Seq::<Seq<char>>::empty());
    let ls = lines("List of devices attached\n"@ + line + "\n"@);
    assert(ls =~= seq![header, line]);
    assert(after_first(ls) =~= seq![line]);
    let f = |l: Seq<char>| device_of_line(l);
    assert(seq![line].drop_last() =~= Seq::<Seq<char>>::empty());
    assert(seq![line].filter_map(f) == Seq::<Seq<char>>::empty().filter_map(f) + match f(line) {
        Some(d) => seq![d],
        None => Seq::<DeviceView>::empty(),
    });
}

fn device_of_line_exec(line: &[char], model_tag: &[char], device_tag: &[char]) -> (res: Option<
    Device,
>)
    requires
        model_tag@ == "model:"@,
        device_tag@ == "device:"@,
    ensures
        match res {
            Some(d) => device_of_line(line@) == Some(d@),
            None => device_of_line(line@) is None,
        },
{
    let parts = split_words(line);
    if parts.len() < 2 {
        return None;
    }
    let ghost ps = seqs(parts@);
    let mut model: Option<Vec<char>> = None;
    let mut device_type: Option<Vec<char>> = None;
    let mut k: usize = 2;
    assert(ps.subrange(2, 2) =~= Seq::<Seq<char>>::empty());
    while k < parts.len()
        invariant
            2 <= k <= parts.len(),
            ps == seqs(parts@),
            model_tag@ == "model:"@,
            device_tag@ == "device:"@,
            opt_chars(model) == last_tagged(ps.subrange(2, k as int), model_tag@),
            opt_chars(device_type) == last_tagged(ps.subrange(2, k as int), device_tag@),
        decreases parts.len() - k,
    {
        let part = &parts[k];
        assert(ps.subrange(2, k + 1).drop_last() =~= ps.subrange(2, k as int));
        assert(ps.subrange(2, k + 1).last() == part@);
        if starts_with_exec(part, model_tag) {
            let v = copy_range(part, model_tag.len(), part.len());
            assert(v@ =~= part@.skip(model_tag@.len() as int));
            model = Some(v);
        } else if starts_with_exec(part, device_tag) {
            let v = copy_range(part, device_tag.len(), part.len());
            assert(v@ =~= part@.skip(device_tag@.len() as int));
            device_type = Some(v);
        } else {
        }
        proof {
            if starts_with(part@, model_tag@) && starts_with(part@, device_tag@) {
                reveal_strlit("model:");
                reveal_strlit("device:");
                assert(part@.subrange(0, 6)[0] == part@[0]);
                assert(part@.subrange(0, 7)[0] == part@[0]);
                assert(false);
            }
        }
        k = k + 1;
    }
    assert(ps.subrange(2, ps.len() as int) =~= ps.skip(2));
    let d = Device {
        serial: string_of(&parts[0]),
        status: string_of(&parts[1]),
        model: opt_string(&model),
        device_type: opt_string(&device_type),
    };
    Some(d)
}

/// `adb devices -l` output read into devices (`get_devices`).
pub fn parse_devices(output: &str) -> (res: Vec<Device>)
    ensures
        views(res@) == devices_of(output@),
{
    let model_tag = chars_of("model:");
    let device_tag = chars_of("device:");
    let text = chars_of(output);
    let ls = split_lines(&text);
    let ghost all = seqs(ls@);
    let ghost f = |l: Seq<char>| device_of_line(l);
    let mut res: Vec<Device> = Vec::new();
    if ls.len() == 0 {
        assert(after_first(all).filter_map(f) =~= Seq::<DeviceView>::empty());
        return res;
    }
    let mut i: usize = 1;
    assert(all.subrange(1, 1) =~= Seq::<Seq<char>>::empty());
    while i < ls.len()
        invariant
            1 <= i <= ls.len(),
            all == seqs(ls@),
            all == lines(output@),
            model_tag@ == "model:"@,
            device_tag@ == "device:"@,
            f == (|l: Seq<char>| device_of_line(l)),
            views(res@) == all.subrange(1, i as int).filter_map(f),
        decreases ls.len() - i,
    {
        let ghost prev = views(res@);
        assert(all.subrange(1, i + 1).drop_last() =~= all.subrange(1, i as int));
        assert(all.subrange(1, i + 1).last() == ls@[i as int]@);
        match device_of_line_exec(&ls[i], &model_tag, &device_tag) {
            Some(d) => {
                res.push(d);
                assert(views(res@) =~= prev + seq![d@]);
            },
            None => {},
        }
        i = i + 1;
    }
    assert(all.subrange(1, all.len() as int) =~= all.skip(1));
    res
}


/// The value of a `wm` line: the text between the first and second `:`,
/// trimmed.
pub open spec fn wm_line_value(line: Seq<char>) -> Option<Seq<char>> {
    match second_field(trim(line), ':') {
        Some(v) => Some(trim(v)),
        None => None,
    }
}

/// The value of the last line whose trimmed text starts with `label`.
pub open spec fn wm_last(ls: Seq<Seq<char>>, label: Seq<char>) -> Option<Seq<char>>
    decreases ls.len(),
{
    if ls.len() == 0 {
        None
    } else if starts_with(trim(ls.last()), label) {
        wm_line_value(ls.last())
    } else {
        wm_last(ls.drop_last(), label)
    }
}

/// The physical and the override value of `wm size` / `wm density` output.
pub open spec fn wm_two_values(output: Seq<char>) -> (Option<Seq<char>>, Option<Seq<char>>) {
    (wm_last(lines(output), "Physical"@), wm_last(lines(output), "Override"@))
}

/// Reads `Physical ...: v` and `Override ...: v` lines of `wm size` or
/// `wm density` output; the last line of each kind counts.
pub fn parse_wm_two_values(output: &str) -> (res: (Option<String>, Option<String>))
    ensures
        res.0.deep_view() == wm_two_values(output@).0,
        res.1.deep_view() == wm_two_values(output@).1,
{
    let physical_tag = chars_of("Physical");
    let override_tag = chars_of("Override");
    let text = chars_of(output);
    let ls = split_lines(&text);
    let ghost all = seqs(ls@);
    let mut physical: Option<Vec<char>> = None;
    let mut override_v: Option<Vec<char>> = None;
    let mut i: usize = 0;
    assert(all.subrange(0, 0) =~= Seq::<Seq<char>>::empty());
    while i < ls.len()
        invariant
            i <= ls.len(),
            all == seqs(ls@),
            physical_tag@ == "Physical"@,
            override_tag@ == "Override"@,
            opt_chars(physical) == wm_last(all.subrange(0, i as int), physical_tag@),
            opt_chars(override_v) == wm_last(all.subrange(0, i as int), override_tag@),
        decreases ls.len() - i,
    {
        let line = &ls[i];
        assert(all.subrange(0, i + 1).drop_last() =~= all.subrange(0, i as int));
        assert(all.subrange(0, i + 1).last() == line@);
        let trimmed = trim_chars(line);
        let value = match second_field_exec(&trimmed, ':') {
            Some(v) => Some(trim_chars(&v)),
            None => None,
        };
        assert(opt_chars(value) == wm_line_value(line@));
        if starts_with_exec(&trimmed, &physical_tag) {
            physical = value;
            proof {
                if starts_with(trim(line@), override_tag@) {
                    reveal_strlit("Physical");
                    reveal_strlit("Override");
                    assert(trim(line@).subrange(0, 8)[0] == trim(line@)[0]);
                    assert(false);
                }
            }
        } else if starts_with_exec(&trimmed, &override_tag) {
            override_v = value;
        }
        i = i + 1;
    }
    assert(all.subrange(0, all.len() as int) =~= all);
    (opt_string(&physical), opt_string(&override_v))
}

/// The value that takes effect: the override if there is one, else the
/// physical value.
pub open spec fn effective(pair: (Option<Seq<char>>, Option<Seq<char>>)) -> Option<Seq<char>> {
    match pair.1 {
        Some(v) => Some(v),
        None => pair.0,
    }
}

/// The value of `wm size` / `wm density` output that takes effect.
pub fn effective_wm_value(output: &str) -> (res: Option<String>)
    ensures
        res.deep_view() == effective(wm_two_values(output@)),
{
    let (physical, override_v) = parse_wm_two_values(output);
    match override_v {
        Some(v) => Some(v),
        None => physical,
    }
}

/// The numbers that the smallest-width computation reads: width and height
/// from `WxH` and the dots per inch, each trimmed and read as `u32`.
pub open spec fn sw_inputs(size: Option<Seq<char>>, density: Option<Seq<char>>) -> Option<
    (nat, nat, nat),
> {
    match size {
        None => None,
        Some(sz) => match split_once(sz, 'x') {
            None => None,
            Some((w, h)) => match (
                parse_unsigned(trim(w), u32::MAX as nat),
                parse_unsigned(trim(h), u32::MAX as nat),
            ) {
                (Some(wv), Some(hv)) => match density {
                    None => None,
                    Some(d) => match parse_unsigned(trim(d), u32::MAX as nat) {
                        None => None,
                        Some(dpi) => Some((wv, hv, dpi)),
                    },
                },
                _ => None,
            },
        },
    }
}

pub open spec fn min_nat(a: nat, b: nat) -> nat {
    if a <= b {
        a
    } else {
        b
    }
}

/// Whether `min(w, h) * 160` leaves `u32`, where the computation would
/// overflow.
pub open spec fn sw_overflows(size: Option<Seq<char>>, density: Option<Seq<char>>) -> bool {
    match sw_inputs(size, density) {
        Some((w, h, dpi)) => dpi != 0 && min_nat(w, h) * 160 > u32::MAX,
        None => false,
    }
}

/// Smallest width in dp: the shorter side in pixels times 160 over the dpi.
pub open spec fn smallest_width_dp(size: Option<Seq<char>>, density: Option<Seq<char>>) -> Option<
    nat,
> {
    match sw_inputs(size, density) {
        Some((w, h, dpi)) => if dpi == 0 {
            None
        } else {
            Some(min_nat(w, h) * 160 / dpi)
        },
        None => None,
    }
}

fn sw_inputs_exec(size: &Option<String>, density: &Option<String>) -> (res: Option<(u32, u32, u32)>)
    ensures
        match res {
            Some((w, h, d)) => sw_inputs(size.deep_view(), density.deep_view()) == Some(
                (w as nat, h as nat, d as nat),
            ),
            None => sw_inputs(size.deep_view(), density.deep_view()) is None,
        },
{
    let size_str = match size {
        Some(s) => chars_of(s.as_str()),
        None => return None,
    };
    let (w, h) = match split_once_exec(&size_str, 'x') {
        Some(p) => p,
        None => return None,
    };
    let wv = match parse_unsigned_exec(&trim_chars(&w), 0xffff_ffff) {
        Some(v) => v,
        None => return None,
    };
    let hv = match parse_unsigned_exec(&trim_chars(&h), 0xffff_ffff) {
        Some(v) => v,
        None => return None,
    };
    let d_str = match density {
        Some(s) => chars_of(s.as_str()),
        None => return None,
    };
    let dpi = match parse_unsigned_exec(&trim_chars(&d_str), 0xffff_ffff) {
        Some(v) => v,
        None => return None,
    };
    Some((wv as u32, hv as u32, dpi as u32))
}

/// Whether the smallest-width computation would overflow on these values.
pub fn smallest_width_overflows(size: &Option<String>, density: &Option<String>) -> (res: bool)
    ensures
        res == sw_overflows(size.deep_view(), density.deep_view()),
{
    match sw_inputs_exec(size, density) {
        Some((w, h, dpi)) => {
            let m: u64 = if w <= h {
                w as u64
            } else {
                h as u64
            };
            dpi != 0 && m * 160 > 0xffff_ffff
        },
        None => false,
    }
}

/// Smallest width in dp from an effective `WxH` size and dpi.
pub fn compute_smallest_width_dp(size: &Option<String>, density: &Option<String>) -> (res: Option<
    u32,
>)
    requires
        !sw_overflows(size.deep_view(), density.deep_view()),
    ensures
        match res {
            Some(v) => smallest_width_dp(size.deep_view(), density.deep_view()) == Some(v as nat),
            None => smallest_width_dp(size.deep_view(), density.deep_view()) is None,
        },
{
    match sw_inputs_exec(size, density) {
        Some((w, h, dpi)) => {
            if dpi == 0 {
                return None;
            }
            let m = if w <= h {
                w
            } else {
                h
            };
            Some(m * 160 / dpi)
        },
        None => None,
    }
}


/// The text of a command's output, or nothing when the command failed
/// (`unwrap_or_default`).
pub open spec fn ok_or_empty(r: Result<String, String>) -> Seq<char> {
    match r {
        Ok(s) => s@,
        Err(_) => seq![],
    }
}

/// `unwrap_or_default` on a command's result.
pub fn output_or_empty(r: &Result<String, String>) -> (res: String)
    ensures
        res@ == ok_or_empty(*r),
{
    match r {
        Ok(s) => s.clone(),
        Err(_) => String::new(),
    }
}

/// A property read with `getprop`: the trimmed output, or empty on failure.
pub fn prop_value(r: &Result<String, String>) -> (res: String)
    ensures
        res@ == trim(ok_or_empty(*r)),
{
    let out = output_or_empty(r);
    string_of(&trim_chars(&chars_of(out.as_str())))
}

/// The smallest width as the device page shows it: `"<n> dp"`, or empty.
pub open spec fn smallest_width_text(v: Option<nat>) -> Seq<char> {
    match v {
        Some(dp) => decimal(dp) + " dp"@,
        None => seq![],
    }
}

/// The optional value, or empty.
pub open spec fn or_empty(v: Option<Seq<char>>) -> Seq<char> {
    match v {
        Some(s) => s,
        None => seq![],
    }
}

/// The effective screen size that `wm size` output gives.
pub open spec fn effective_size(size_out: Result<String, String>) -> Option<Seq<char>> {
    effective(wm_two_values(ok_or_empty(size_out)))
}

/// The effective density that `wm density` output gives.
pub open spec fn effective_density(density_out: Result<String, String>) -> Option<Seq<char>> {
    effective(wm_two_values(ok_or_empty(density_out)))
}

/// A value as `wm` prints it: not empty, without whitespace or `:`.
pub open spec fn plain_value(v: Seq<char>) -> bool {
    v.len() > 0 && forall|i: int| 0 <= i < v.len() ==> !is_ws(#[trigger] v[i]) && v[i] != ':'
}

proof fn lemma_trim_plain(v: Seq<char>)
    requires
        plain_value(v),
    ensures
        trim(v) == v,
        trim(" "@ + v) == v,
{
    reveal_strlit(" ");
    assert(!is_ws(v[0]));
    assert(!is_ws(v.last()));
    assert(trim_start(v) == v);
    assert(trim_end(v) == v);
    let sv = " "@ + v;
    assert(sv[0] == ' ');
    assert(sv.drop_first() =~= v);
    assert(trim_start(sv) == trim_start(v));
}

proof fn lemma_wm_line(label: Seq<char>, v: Seq<char>)
    requires
        label.len() > 0,
        !is_ws(label[0]),
        forall|i: int| 0 <= i < label.len() ==> label[i] != ':',
        plain_value(v),
    ensures
        trim(label + ": "@ + v) == label + ": "@ + v,
        wm_line_value(label + ": "@ + v) == Some(v),
{
    reveal_strlit(": ");
    reveal_strlit(" ");
    let l = label + ": "@ + v;
    lemma_trim_plain(v);
    assert(l[0] == label[0]);
    assert(l.last() == v.last());
    assert(!is_ws(v.last()));
    assert(trim_start(l) == l);
    assert(trim_end(l) == l);
    let n = label.len() as int;
    assert(l[n] == ':');
    assert forall|j: int| 0 <= j < n implies l[j] != ':' by {
        assert(l[j] == label[j]);
    }
    lemma_find_char_at(l, ':', n);
    let rest = l.skip(n + 1);
    assert(rest =~= " "@ + v);
    crate::text::lemma_find_char(rest, ':');
    match find_char(rest, ':') {
        Some(i) => {
            assert(rest[i] == ':');
            if i > 0 {
                assert(rest[i] == v[i - 1]);
            }
        },
        None => {},
    }
    assert(split_once(l, ':') == Some((l.take(n), rest)));
}

proof fn lemma_density_lines(p: Seq<char>, v: Seq<char>)
    requires
        plain_value(p),
        plain_value(v),
    ensures
        lines("Physical density: "@ + p + "\nOverride density: "@ + v + "\n"@) == seq![
            "Physical density"@ + ": "@ + p,
            "Override density"@ + ": "@ + v,
        ],
        lines("Physical density: "@ + p + "\n"@) == seq!["Physical density"@ + ": "@ + p],
{
    reveal_strlit("Physical density: ");
    reveal_strlit("\nOverride density: ");
    reveal_strlit("\n");
    reveal_strlit("Physical density");
    reveal_strlit("Override density");
    reveal_strlit(": ");
    let l1 = "Physical density"@ + ": "@ + p;
    let l2 = "Override density"@ + ": "@ + v;
    assert forall|i: int| 0 <= i < l1.len() implies l1[i] != '\n' by {
        if i >= 18 {
            assert(l1[i] == p[i - 18]);
        }
    }
    assert forall|i: int| 0 <= i < l2.len() implies l2[i] != '\n' by {
        if i >= 18 {
            assert(l2[i] == v[i - 18]);
        }
    }
    assert(l1.last() == p.last());
    assert(l2.last() == v.last());
    assert(!is_ws(p.last()) && !is_ws(v.last()));
    lemma_lines_cons(l2, Seq::<char>::empty());
    lemma_lines_cons(l1, l2 + "\n"@);
    lemma_lines_cons(l1, Seq::<char>::empty());
    assert("Physical density: "@ + p + "\nOverride density: "@ + v + "\n"@ =~= l1 + "\n"@ + (l2
        + "\n"@ + Seq::<char>::empty()));
    assert("Physical density: "@ + p + "\n"@ =~= l1 + "\n"@ + Seq::<char>::empty());
    assert(lines(Seq::<char>::empty()) == Seq::<Seq<char>>::empty());
    assert(seq![l2] + Seq::<Seq<char>>::empty() =~= seq![l2]);
    assert(seq![l1] + Seq::<Seq<char>>::empty() =~= seq![l1]);
    assert(seq![l1] + seq![l2] =~= seq![l1, l2]);
}

/// The density that takes effect is the override: when `wm density` prints
/// a physical density `p` and an override `v`, the device page shows `v` as
/// its density and computes the smallest width from `v`, whatever the screen
/// size.
pub proof fn law_override_density_wins(density_out: Result<String, String>, p: Seq<char>, v: Seq<char>)
    requires
        density_out matches Ok(s) && s@ == "Physical density: "@ + p + "\nOverride density: "@ + v
            + "\n"@,
        plain_value(p),
        plain_value(v),
    ensures
        effective_density(density_out) == Some(v),
        or_empty(effective_density(density_out)) == v,
        forall|size_out: Result<String, String>|
            smallest_width_dp(effective_size(size_out), effective_density(density_out))
                == #[trigger] smallest_width_dp(effective_size(size_out), Some(v)),
{
    reveal_strlit("Physical density");
    reveal_strlit("Override density");
    reveal_strlit("Physical");
    reveal_strlit("Override");
    lemma_density_lines(p, v);
    let l1 = "Physical density"@ + ": "@ + p;
    let l2 = "Override density"@ + ": "@ + v;
    assert forall|i: int| 0 <= i < 16 implies "Physical density"@[i] != ':' by {}
    assert forall|i: int| 0 <= i < 16 implies "Override density"@[i] != ':' by {}
    lemma_wm_line("Physical density"@, p);
    lemma_wm_line("Override density"@, v);
    let ls = seq![l1, l2];
    assert(ls.last() == l2);
    lemma_tag_prefix_seq(l2, "Override"@);
    lemma_tag_prefix_seq(l1, "Physical"@);
    assert(l2[0] == 'O');
    lemma_not_tag(l2, "Physical"@);
    assert(ls.drop_last() =~= seq![l1]);
    assert(seq![l1].drop_last() =~= Seq::<Seq<char>>::empty());
    assert(wm_last(ls, "Override"@) == Some(v));
}

/// Without an override, the physical density takes effect: when `wm density`
/// prints only `Physical density: p`, the device page shows `p`.
pub proof fn law_physical_density_alone(density_out: Result<String, String>, p: Seq<char>)
    requires
        density_out matches Ok(s) && s@ == "Physical density: "@ + p + "\n"@,
        plain_value(p),
    ensures
        effective_density(density_out) == Some(p),
        or_empty(effective_density(density_out)) == p,
{
    reveal_strlit("Physical density");
    reveal_strlit("Physical");
    reveal_strlit("Override");
    lemma_density_lines(p, p);
    let l1 = "Physical density"@ + ": "@ + p;
    assert forall|i: int| 0 <= i < 16 implies "Physical density"@[i] != ':' by {}
    lemma_wm_line("Physical density"@, p);
    lemma_tag_prefix_seq(l1, "Physical"@);
    assert(l1[0] == 'P');
    lemma_not_tag(l1, "Override"@);
    let ls = seq![l1];
    assert(ls.drop_last() =~= Seq::<Seq<char>>::empty());
    assert(ls.last() == l1);
    assert(trim(l1) == l1);
    assert(wm_last(ls, "Physical"@) == Some(p));
    assert(wm_last(ls.drop_last(), "Override"@) is None);
    assert(wm_last(ls, "Override"@) is None);
    let out = ok_or_empty(density_out);
    assert(lines(out) == ls);
    assert(wm_two_values(out) == (Some(p), None::<Seq<char>>));
}

/// Both values of `wm` output with a physical line and an override line of
/// the same kind (`size` or `density`) are read, each from its own line.
proof fn lemma_two_wm_values(kind: Seq<char>, p: Seq<char>, v: Seq<char>)
    requires
        kind.len() > 0,
        forall|i: int| 0 <= i < kind.len() ==> kind[i] != ':' && kind[i] != '\n',
        plain_value(p),
        plain_value(v),
    ensures
        wm_two_values("Physical "@ + kind + ": "@ + p + "\n"@ + "Override "@ + kind + ": "@ + v + "\n"@)
            == (Some(p), Some(v)),
{
    reveal_strlit("Physical ");
    reveal_strlit("Override ");
    reveal_strlit("Physical");
    reveal_strlit("Override");
    reveal_strlit(": ");
    reveal_strlit("\n");
    let lb1 = "Physical "@ + kind;
    let lb2 = "Override "@ + kind;
    let l1 = lb1 + ": "@ + p;
    let l2 = lb2 + ": "@ + v;
    assert forall|i: int| 0 <= i < lb1.len() implies lb1[i] != ':' by {
        if i >= 9 {
            assert(lb1[i] == kind[i - 9]);
        }
    }
    assert forall|i: int| 0 <= i < lb2.len() implies lb2[i] != ':' by {
        if i >= 9 {
            assert(lb2[i] == kind[i - 9]);
        }
    }
    assert(lb1[0] == 'P' && lb2[0] == 'O');
    lemma_wm_line(lb1, p);
    lemma_wm_line(lb2, v);
    let n = lb1.len() as int;
    assert forall|i: int| 0 <= i < l1.len() implies l1[i] != '\n' by {
        if i < 9 {
        } else if i < n {
            assert(l1[i] == kind[i - 9]);
        } else if i >= n + 2 {
            assert(l1[i] == p[i - n - 2]);
        }
    }
    assert forall|i: int| 0 <= i < l2.len() implies l2[i] != '\n' by {
        if i < 9 {
        } else if i < n {
            assert(l2[i] == kind[i - 9]);
        } else if i >= n + 2 {
            assert(l2[i] == v[i - n - 2]);
        }
    }
    assert(l1.last() == p.last());
    assert(l2.last() == v.last());
    assert(!is_ws(p.last()) && !is_ws(v.last()));
    lemma_lines_cons(l2, Seq::<char>::empty());
    lemma_lines_cons(l1, l2 + "\n"@);
    let out = "Physical "@ + kind + ": "@ + p + "\n"@ + "Override "@ + kind + ": "@ + v + "\n"@;
    assert(out =~= l1 + "\n"@ + (l2 + "\n"@ + Seq::<char>::empty()));
    assert(l2 + "\n"@ =~= l2 + "\n"@ + Seq::<char>::empty());
    assert(lines(Seq::<char>::empty()) == Seq::<Seq<char>>::empty());
    let ls = seq![l1, l2];
    assert(lines(out) =~= ls);
    lemma_tag_prefix_seq(l2, "Override"@);
    lemma_tag_prefix_seq(l1, "Physical"@);
    lemma_not_tag(l2, "Physical"@);
    assert(ls.last() == l2);
    assert(ls.drop_last() =~= seq![l1]);
    assert(seq![l1].last() == l1);
    assert(wm_last(ls, "Override"@) == Some(v));
    assert(wm_last(ls.drop_last(), "Physical"@) == Some(p));
    assert(wm_last(ls, "Physical"@) == Some(p));
}

/// The screen size that takes effect is the override: when `wm size` prints
/// a physical size `p` and an override `v`, the device page shows `v` as its
/// resolution and computes the smallest width from `v`, whatever the
/// density.
pub proof fn law_override_size_wins(size_out: Result<String, String>, p: Seq<char>, v: Seq<char>)
    requires
        size_out matches Ok(s) && s@ == "Physical size: "@ + p + "\nOverride size: "@ + v + "\n"@,
        plain_value(p),
        plain_value(v),
    ensures
        effective_size(size_out) == Some(v),
        or_empty(effective_size(size_out)) == v,
        forall|density_out: Result<String, String>|
            smallest_width_dp(effective_size(size_out), effective_density(density_out))
                == #[trigger] smallest_width_dp(Some(v), effective_density(density_out)),
{
    reveal_strlit("Physical size: ");
    reveal_strlit("\nOverride size: ");
    reveal_strlit("Physical ");
    reveal_strlit("Override ");
    reveal_strlit("size");
    reveal_strlit(": ");
    reveal_strlit("\n");
    lemma_two_wm_values("size"@, p, v);
    assert("Physical size: "@ + p + "\nOverride size: "@ + v + "\n"@ =~= "Physical "@ + "size"@ + ": "@
        + p + "\n"@ + "Override "@ + "size"@ + ": "@ + v + "\n"@);
}

proof fn lemma_tag_prefix_seq(l: Seq<char>, tag: Seq<char>)
    requires
        tag.len() <= l.len(),
        forall|i: int| 0 <= i < tag.len() ==> l[i] == tag[i],
    ensures
        starts_with(l, tag),
{
    assert(l.subrange(0, tag.len() as int) =~= tag);
}

/// Assembles the device page from the command results (`get_device_info`).
/// `density` is the density ratio text computed from the effective density.
pub fn device_info_from(
    serial: &str,
    model: &Result<String, String>,
    manufacturer: &Result<String, String>,
    android_version: &Result<String, String>,
    sdk_version: &Result<String, String>,
    size_out: &Result<String, String>,
    density_out: &Result<String, String>,
    density: &str,
) -> (res: DeviceInfo)
    requires
        !sw_overflows(effective_size(*size_out), effective_density(*density_out)),
    ensures
        res.serial@ == serial@,
        res.model@ == trim(ok_or_empty(*model)),
        res.manufacturer@ == trim(ok_or_empty(*manufacturer)),
        res.android_version@ == trim(ok_or_empty(*android_version)),
        res.sdk_version@ == trim(ok_or_empty(*sdk_version)),
        res.screen_resolution@ == or_empty(effective_size(*size_out)),
        res.density_dpi@ == or_empty(effective_density(*density_out)),
        res.density@ == density@,
        res.smallest_width@ == smallest_width_text(
            smallest_width_dp(effective_size(*size_out), effective_density(*density_out)),
        ),
{
    let size_text = output_or_empty(size_out);
    let eff_size = effective_wm_value(size_text.as_str());
    let density_text = output_or_empty(density_out);
    let eff_density = effective_wm_value(density_text.as_str());
    let screen_resolution = match &eff_size {
        Some(s) => s.clone(),
        None => String::new(),
    };
    let density_dpi = match &eff_density {
        Some(s) => s.clone(),
        None => String::new(),
    };
    let smallest_width = match compute_smallest_width_dp(&eff_size, &eff_density) {
        Some(dp) => {
            let digits = fmt_decimal(dp as u128);
            let suffix = chars_of(" dp");
            string_of(&concat(&digits, &suffix))
        },
        None => String::new(),
    };
    DeviceInfo {
        serial: serial.to_string(),
        model: prop_value(model),
        manufacturer: prop_value(manufacturer),
        android_version: prop_value(android_version),
        sdk_version: prop_value(sdk_version),
        screen_resolution,
        density: density.to_string(),
        density_dpi,
        smallest_width,
    }
}


proof fn lemma_split_at_x(w: Seq<char>, h: Seq<char>)
    requires
        forall|i: int| 0 <= i < w.len() ==> w[i] != 'x',
    ensures
        split_once(w + "x"@ + h, 'x') == Some((w, h)),
{
    reveal_strlit("x");
    let s = w + "x"@ + h;
    crate::text::lemma_find_char(s, 'x');
    assert(s[w.len() as int] == 'x');
    match find_char(s, 'x') {
        Some(k) => {
            if k < w.len() {
                assert(s[k] == w[k]);
            }
            if k > w.len() {
                assert(s[w.len() as int] != 'x');
            }
        },
        None => {},
    }
    assert(s.take(w.len() as int) =~= w);
    assert(s.skip(w.len() as int + 1) =~= h);
}

proof fn lemma_decimal_plain(n: nat)
    ensures
        trim(decimal(n)) == decimal(n),
        forall|i: int| 0 <= i < decimal(n).len() ==> decimal(n)[i] != 'x',
        parse_unsigned(trim(decimal(n)), u32::MAX as nat) == (if n <= u32::MAX {
            Some(n)
        } else {
            None::<nat>
        }),
{
    crate::text::lemma_decimal_digits(n);
    let d = decimal(n);
    assert(is_digit(d[0]) && is_digit(d.last()));
    assert(!is_ws(d[0]) && !is_ws(d.last()));
    assert(trim_start(d) == d);
    assert(trim_end(d) == d);
    assert forall|i: int| 0 <= i < d.len() implies d[i] != 'x' by {
        assert(is_digit(d[i]));
    }
    if n <= u32::MAX {
        crate::text::lemma_parse_decimal(n, u32::MAX as nat);
    } else {
        assert(crate::text::unsigned_digits(d) == d);
    }
}

/// The smallest width in dp is the shorter side in pixels times 160 over the
/// dots per inch (rounded down): for a size printed as `WxH` and a density
/// `D`, it is `min(W, H) * 160 / D`; a zero density gives none.
pub proof fn law_smallest_width_formula(w: nat, h: nat, dpi: nat)
    requires
        w <= u32::MAX,
        h <= u32::MAX,
        dpi <= u32::MAX,
    ensures
        smallest_width_dp(Some(decimal(w) + "x"@ + decimal(h)), Some(decimal(dpi))) == (if dpi == 0 {
            None
        } else {
            Some((if w <= h {
                w
            } else {
                h
            }) * 160 / dpi)
        }),
{
    lemma_decimal_plain(w);
    lemma_decimal_plain(h);
    lemma_decimal_plain(dpi);
    lemma_split_at_x(decimal(w), decimal(h));
}

/// The smallest width does not depend on the orientation: `WxH` and `HxW`
/// give the same value.
pub proof fn law_smallest_width_orientation(w: Seq<char>, h: Seq<char>, density: Option<Seq<char>>)
    requires
        forall|i: int| 0 <= i < w.len() ==> w[i] != 'x',
        forall|i: int| 0 <= i < h.len() ==> h[i] != 'x',
    ensures
        smallest_width_dp(Some(w + "x"@ + h), density) == smallest_width_dp(
            Some(h + "x"@ + w),
            density,
        ),
{
    lemma_split_at_x(w, h);
    lemma_split_at_x(h, w);
}

} // verus!
