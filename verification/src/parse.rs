//! Reading the output of `adb devices -l` and choosing the target device.
//!
//! Nothing here runs a command: text becomes models, which is where the
//! resilience for the physical-connection cases lives.

use vstd::prelude::*;

use crate::adb_error::{adb_view, AdbError, AdbErrorView};
use crate::model::{
    copy_devices, owned_string, state_from_chars, state_name, state_of, transport_from_chars,
    transport_of, Device, DeviceState, DeviceStateView, DeviceView,
};
use crate::text::{
    chars_of, eq_chars, is_ws, split_at_char, split_chars, split_concat, split_plain, split_words,
    starts_with, starts_with_chars, trim_end, trim_start,
    string_of, trim, trim_chars, words,
};

verus! {

/// `s` with every `_` turned into a space.
pub open spec fn underscores_to_spaces(s: Seq<char>) -> Seq<char> {
    Seq::new(
        s.len(),
        |i: int|
            if s[i] == '_' {
                ' '
            } else {
                s[i]
            },
    )
}

/// The model in the first of `ws` that begins with `model:`, if any.
pub open spec fn model_in(ws: Seq<Seq<char>>) -> Option<Seq<char>>
    decreases ws.len(),
{
    if ws.len() == 0 {
        None
    } else if starts_with(ws[0], "model:"@) {
        Some(underscores_to_spaces(ws[0].skip("model:"@.len() as int)))
    } else {
        model_in(ws.drop_first())
    }
}

/// The device a line of `adb devices -l` describes: `serial state key:value...`.
pub open spec fn device_line(line: Seq<char>) -> Option<DeviceView> {
    let w = words(line);
    if w.len() < 2 {
        None
    } else {
        Some(
            DeviceView {
                serial: w[0],
                state: state_of(w[1]),
                transport: transport_of(w[0]),
                model: model_in(w.skip(2)),
            },
        )
    }
}

/// The devices that some lines describe, skipping blank lines and the header.
pub open spec fn device_lines(lines: Seq<Seq<char>>) -> Seq<DeviceView>
    decreases lines.len(),
{
    if lines.len() == 0 {
        seq![]
    } else {
        let prev = device_lines(lines.drop_last());
        let l = trim(lines.last());
        if l.len() == 0 || l == "List of devices attached"@ {
            prev
        } else {
            match device_line(l) {
                Some(d) => prev.push(d),
                None => prev,
            }
        }
    }
}

/// The devices listed in the output of `adb devices -l`.
pub open spec fn devices_of(output: Seq<char>) -> Seq<DeviceView> {
    device_lines(split_at_char(output, '\n'))
}

/// Position of the first device with the given serial, if any.
pub open spec fn position_of_serial(devs: Seq<DeviceView>, serial: Seq<char>) -> Option<int>
    decreases devs.len(),
{
    if devs.len() == 0 {
        None
    } else {
        match position_of_serial(devs.drop_last(), serial) {
            Some(i) => Some(i),
            None => if devs.last().serial == serial {
                Some(devs.len() - 1)
            } else {
                None
            },
        }
    }
}

/// The devices that are ready, in order.
pub open spec fn ready_devices(devs: Seq<DeviceView>) -> Seq<DeviceView>
    decreases devs.len(),
{
    if devs.len() == 0 {
        seq![]
    } else if devs.last().state is Device {
        ready_devices(devs.drop_last()).push(devs.last())
    } else {
        ready_devices(devs.drop_last())
    }
}

/// The device when it is ready, else the error its state calls for.
pub open spec fn ready_or_state_error_of(d: DeviceView) -> Result<DeviceView, AdbErrorView> {
    match d.state {
        DeviceStateView::Device => Ok(d),
        DeviceStateView::Unauthorized => Err(AdbErrorView::Unauthorized { serial: d.serial }),
        DeviceStateView::Authorizing => Err(AdbErrorView::Unauthorized { serial: d.serial }),
        _ => Err(AdbErrorView::NotReady { serial: d.serial, state: state_name(d.state) }),
    }
}

/// The choice of target device: the one with the requested serial, else the
/// only ready one; the errors say why there is none.
pub open spec fn selection(devs: Seq<DeviceView>, desired: Option<Seq<char>>) -> Result<
    DeviceView,
    AdbErrorView,
> {
    match desired {
        Some(serial) => match position_of_serial(devs, serial) {
            None => Err(AdbErrorView::SerialNotFound { serial, available: devs }),
            Some(i) => ready_or_state_error_of(devs[i]),
        },
        None => {
            if devs.len() == 0 {
                Err(AdbErrorView::NoDevice)
            } else if ready_devices(devs).len() == 1 {
                Ok(ready_devices(devs)[0])
            } else if ready_devices(devs).len() == 0 && devs.len() == 1 {
                ready_or_state_error_of(devs[0])
            } else {
                Err(AdbErrorView::AmbiguousDevice { devices: devs })
            }
        },
    }
}

/// Views of a slice of devices.
pub open spec fn device_views(devices: Seq<Device>) -> Seq<DeviceView> {
    devices.map_values(|d: Device| d@)
}

/// The text of an optional string slice.
pub open spec fn opt_text(s: Option<&str>) -> Option<Seq<char>> {
    match s {
        Some(t) => Some(t@),
        None => None,
    }
}

proof fn lemma_model_in_step(ws: Seq<Seq<char>>, k: int)
    requires
        0 <= k < ws.len(),
        !starts_with(ws[k], "model:"@),
    ensures
        model_in(ws.skip(k)) == model_in(ws.skip(k + 1)),
{
    assert(ws.skip(k).drop_first() =~= ws.skip(k + 1));
}

/// The text of an optional string.
pub open spec fn opt_string_view(o: Option<String>) -> Option<Seq<char>> {
    match o {
        Some(s) => Some(s@),
        None => None,
    }
}

/// The model in the first word from the third on that begins with `model:`.
fn model_from_words(w: &Vec<Vec<char>>) -> (r: Option<String>)
    requires
        w@.len() >= 2,
    ensures
        opt_string_view(r) == model_in(w.deep_view().skip(2)),
{
    let ghost ws = w.deep_view();
    let prefix = chars_of("model:");
    let mut k: usize = 2;
    assert(ws.skip(2) == ws.skip(k as int));
    while k < w.len()
        invariant
            2 <= k <= w@.len(),
            ws == w.deep_view(),
            prefix@ == "model:"@,
            model_in(ws.skip(2)) == model_in(ws.skip(k as int)),
        decreases w@.len() - k,
    {
        assert(ws[k as int] == w[k as int]@);
        if starts_with_chars(w[k].as_slice(), prefix.as_slice()) {
            let word = &w[k];
            let mut m: Vec<char> = Vec::new();
            let mut j: usize = prefix.len();
            while j < word.len()
                invariant
                    prefix@.len() <= j <= word@.len(),
                    m@ == underscores_to_spaces(word@.skip(prefix@.len() as int)).take(
                        j - prefix@.len(),
                    ),
                decreases word@.len() - j,
            {
                m.push(
                    if word[j] == '_' {
                        ' '
                    } else {
                        word[j]
                    },
                );
                j = j + 1;
                assert(m@ =~= underscores_to_spaces(word@.skip(prefix@.len() as int)).take(
                    j - prefix@.len(),
                ));
            }
            assert(m@ =~= underscores_to_spaces(word@.skip(prefix@.len() as int)));
            assert(ws.skip(k as int)[0] == ws[k as int]);
            return Some(string_of(m.as_slice()));
        }
        proof {
            lemma_model_in_step(ws, k as int);
        }
        k = k + 1;
    }
    assert(ws.skip(k as int).len() == 0);
    None
}

/// The device one line of `adb devices -l` describes (the line trimmed).
fn parse_device_line(line: &[char]) -> (r: Option<Device>)
    ensures
        match r {
            Some(d) => device_line(line@) == Some(d@),
            None => device_line(line@) is None,
        },
{
    let w = split_words(line);
    if w.len() < 2 {
        return None;
    }
    let ghost ws = w.deep_view();
    assert(ws[0] == w[0]@ && ws[1] == w[1]@);
    let serial = string_of(w[0].as_slice());
    let state = state_from_chars(w[1].as_slice());
    let model = model_from_words(&w);
    let transport = transport_from_chars(w[0].as_slice());
    Some(Device { serial, state, transport, model })
}

/// Reads the output of `adb devices -l`.
///
/// The header and blank lines are skipped. Each device line is
/// `serial  state  key:value...`; `model:` is taken when present.
pub fn parse_devices(output: &str) -> (r: Vec<Device>)
    ensures
        r.deep_view() == devices_of(output@),
{
    let text = chars_of(output);
    let lines = split_chars(text.as_slice(), '\n');
    let ghost ls = lines.deep_view();
    let header = chars_of("List of devices attached");
    let mut r: Vec<Device> = Vec::new();
    let mut i: usize = 0;
    while i < lines.len()
        invariant
            i <= lines@.len(),
            ls == lines.deep_view(),
            ls == split_at_char(output@, '\n'),
            header@ == "List of devices attached"@,
            r.deep_view() == device_lines(ls.take(i as int)),
        decreases lines@.len() - i,
    {
        assert(ls.take(i + 1).drop_last() =~= ls.take(i as int));
        assert(ls[i as int] == lines[i as int]@);
        let l = trim_chars(lines[i].as_slice());
        if l.len() > 0 && !eq_chars(l.as_slice(), header.as_slice()) {
            match parse_device_line(l.as_slice()) {
                Some(d) => {
                    let ghost prev = r.deep_view();
                    let ghost dv = d@;
                    r.push(d);
                    assert(r.deep_view() =~= prev.push(dv));
                },
                None => {},
            }
        }
        i = i + 1;
    }
    assert(ls.take(ls.len() as int) =~= ls);
    r
}

/// The device when it is ready, else the error its state calls for.
fn ready_or_state_error(d: &Device) -> (r: Result<Device, AdbError>)
    ensures
        adb_view(r) == ready_or_state_error_of(d@),
{
    match &d.state {
        DeviceState::Device => Ok(d.copy()),
        DeviceState::Unauthorized | DeviceState::Authorizing => Err(
            AdbError::Unauthorized { serial: d.serial.clone() },
        ),
        other => Err(AdbError::NotReady { serial: d.serial.clone(), state: other.to_string() }),
    }
}

/// Chooses the target device among the connected ones, by serial when one
/// is given.
///
/// Gathers the physical-connection resilience: no device, ambiguity, no
/// authorization and unusable states each map to their actionable error.
pub fn select_device(devices: &[Device], desired_serial: Option<&str>) -> (r: Result<
    Device,
    AdbError,
>)
    ensures
        adb_view(r) == selection(device_views(devices@), opt_text(desired_serial)),
{
    let ghost devs = device_views(devices@);
    if let Some(serial) = desired_serial {
        let want = chars_of(serial);
        let mut i: usize = 0;
        while i < devices.len()
            invariant
                i <= devices@.len(),
                devs == device_views(devices@),
                want@ == serial@,
                desired_serial == Some(serial),
                position_of_serial(devs.take(i as int), serial@) is None,
            decreases devices@.len() - i,
        {
            assert(devs.take(i + 1).drop_last() =~= devs.take(i as int));
            let have = chars_of(devices[i].serial.as_str());
            if eq_chars(have.as_slice(), want.as_slice()) {
                assert(devs[i as int] == devices@[i as int]@);
                assert(position_of_serial(devs.take(i + 1), serial@) == Some(i as int));
                assert(position_of_serial(devs, serial@) == Some(i as int)) by {
                    lemma_position_prefix(devs, serial@, i + 1);
                }
                return ready_or_state_error(&devices[i]);
            }
            i = i + 1;
        }
        assert(devs.take(devices@.len() as int) =~= devs);
        return Err(
            AdbError::SerialNotFound {
                serial: owned_string(serial),
                available: copy_devices(devices),
            },
        );
    }
    if devices.len() == 0 {
        return Err(AdbError::NoDevice);
    }
    let mut count: usize = 0;
    let mut first: usize = 0;
    let mut i: usize = 0;
    while i < devices.len()
        invariant
            i <= devices@.len(),
            devs == device_views(devices@),
            count == ready_devices(devs.take(i as int)).len(),
            count <= i,
            count >= 1 ==> first < i && ready_devices(devs.take(i as int))[0] == devs[first as int],
        decreases devices@.len() - i,
    {
        assert(devs.take(i + 1).drop_last() =~= devs.take(i as int));
        if devices[i].state.is_ready() {
            if count == 0 {
                first = i;
            }
            count = count + 1;
        }
        i = i + 1;
    }
    assert(devs.take(devices@.len() as int) =~= devs);
    if count == 1 {
        Ok(devices[first].copy())
    } else if count == 0 && devices.len() == 1 {
        ready_or_state_error(&devices[0])
    } else {
        Err(AdbError::AmbiguousDevice { devices: copy_devices(devices) })
    }
}

/// The first position of a serial in a prefix is its first position overall.
proof fn lemma_position_prefix(devs: Seq<DeviceView>, serial: Seq<char>, n: int)
    requires
        0 <= n <= devs.len(),
        position_of_serial(devs.take(n), serial) is Some,
    ensures
        position_of_serial(devs, serial) == position_of_serial(devs.take(n), serial),
    decreases devs.len() - n,
{
    if n < devs.len() {
        assert(devs.take(n + 1).drop_last() =~= devs.take(n));
        lemma_position_prefix(devs, serial, n + 1);
    } else {
        assert(devs.take(n) =~= devs);
    }
}

/// What the first position of a serial is: a position that holds it.
proof fn lemma_position_of_serial(devs: Seq<DeviceView>, serial: Seq<char>)
    ensures
        position_of_serial(devs, serial) matches Some(i) ==> 0 <= i < devs.len() && devs[i].serial
            == serial,
    decreases devs.len(),
{
    if devs.len() > 0 {
        lemma_position_of_serial(devs.drop_last(), serial);
    }
}

/// The ready devices are listed devices, each of them ready.
proof fn lemma_ready_devices(devs: Seq<DeviceView>)
    ensures
        forall|k: int|
            0 <= k < ready_devices(devs).len() ==> devs.contains(#[trigger] ready_devices(devs)[k])
                && ready_devices(devs)[k].state is Device,
    decreases devs.len(),
{
    if devs.len() > 0 {
        let p = devs.drop_last();
        lemma_ready_devices(p);
        assert forall|k: int| 0 <= k < ready_devices(devs).len() implies devs.contains(
            #[trigger] ready_devices(devs)[k],
        ) && ready_devices(devs)[k].state is Device by {
            if k < ready_devices(p).len() {
                let j = choose|j: int| 0 <= j < p.len() && p[j] == ready_devices(p)[k];
                assert(devs[j] == p[j]);
            } else {
                assert(devs[devs.len() - 1] == devs.last());
            }
        }
    }
}

/// The target is always one of the listed devices and a ready one; when a
/// serial was asked for, it carries that serial.
pub proof fn selection_is_ready_listed(devs: Seq<DeviceView>, desired: Option<Seq<char>>)
    ensures
        selection(devs, desired) matches Ok(d) ==> d.state is Device && devs.contains(d) && (
        desired matches Some(s) ==> d.serial == s),
{
    lemma_ready_devices(devs);
    match desired {
        Some(serial) => {
            lemma_position_of_serial(devs, serial);
        },
        None => {
            if devs.len() > 0 && ready_devices(devs).len() == 1 {
                assert(devs.contains(ready_devices(devs)[0]));
            }
        },
    }
}

/// Under a single ready device at `i`, the ready devices among the first
/// `n` are that one once `n` passes it, and none before.
proof fn lemma_single_ready_prefix(devs: Seq<DeviceView>, i: int, n: int)
    requires
        0 <= i < devs.len(),
        0 <= n <= devs.len(),
        devs[i].state is Device,
        forall|j: int| 0 <= j < devs.len() && j != i ==> !(#[trigger] devs[j].state is Device),
    ensures
        ready_devices(devs.take(n)) == (if n > i {
            seq![devs[i]]
        } else {
            Seq::<DeviceView>::empty()
        }),
    decreases n,
{
    if n > 0 {
        lemma_single_ready_prefix(devs, i, n - 1);
        let t = devs.take(n);
        assert(t.drop_last() =~= devs.take(n - 1));
        assert(t.last() == devs[n - 1]);
        if n - 1 == i {
            assert(Seq::<DeviceView>::empty().push(devs[i]) =~= seq![devs[i]]);
        }
    } else {
        assert(devs.take(0) =~= Seq::<DeviceView>::empty());
    }
}

/// Counting ready devices: a longer prefix holds at least as many, and one
/// more when the device it adds is ready.
proof fn lemma_ready_count(devs: Seq<DeviceView>, n: int, m: int)
    requires
        0 <= n <= m <= devs.len(),
    ensures
        ready_devices(devs.take(n)).len() <= ready_devices(devs.take(m)).len(),
        n < m && devs[n].state is Device ==> ready_devices(devs.take(n)).len() + 1 <= ready_devices(
            devs.take(m),
        ).len(),
    decreases m - n,
{
    if n < m {
        lemma_ready_count(devs, n + 1, m);
        assert(devs.take(n + 1).drop_last() =~= devs.take(n));
        assert(devs.take(n + 1).last() == devs[n]);
    }
}

/// With no serial asked for, a single ready device is the target, however
/// many other devices are listed in states that are not ready.
pub proof fn single_ready_device_chosen(devs: Seq<DeviceView>, i: int)
    requires
        0 <= i < devs.len(),
        devs[i].state is Device,
        forall|j: int| 0 <= j < devs.len() && j != i ==> !(#[trigger] devs[j].state is Device),
    ensures
        selection(devs, None) == Ok::<DeviceView, AdbErrorView>(devs[i]),
{
    lemma_single_ready_prefix(devs, i, devs.len() as int);
    assert(devs.take(devs.len() as int) =~= devs);
}

/// With no serial asked for and two ready devices, no device is guessed: the
/// answer is the ambiguity, listing every device.
pub proof fn two_ready_devices_are_ambiguous(devs: Seq<DeviceView>, i: int, j: int)
    requires
        0 <= i < j < devs.len(),
        devs[i].state is Device,
        devs[j].state is Device,
    ensures
        selection(devs, None) == Err::<DeviceView, AdbErrorView>(
            AdbErrorView::AmbiguousDevice { devices: devs },
        ),
{
    lemma_ready_count(devs, i, j);
    lemma_ready_count(devs, j, devs.len() as int);
    lemma_ready_count(devs, 0, i);
    assert(devs.take(devs.len() as int) =~= devs);
}

/// With no serial asked for and no device listed, the answer is that there
/// is none; with a serial asked for that no listed device has, the answer
/// names it and lists what is there.
pub proof fn missing_device_reported(devs: Seq<DeviceView>, serial: Seq<char>)
    requires
        forall|j: int| 0 <= j < devs.len() ==> #[trigger] devs[j].serial != serial,
    ensures
        selection(Seq::<DeviceView>::empty(), None) == Err::<DeviceView, AdbErrorView>(
            AdbErrorView::NoDevice,
        ),
        selection(devs, Some(serial)) == Err::<DeviceView, AdbErrorView>(
            AdbErrorView::SerialNotFound { serial, available: devs },
        ),
{
    lemma_position_of_serial(devs, serial);
}

/// Reading lines one after another: the devices of two runs of lines are
/// those of the first run, then those of the second.
proof fn lemma_device_lines_concat(x: Seq<Seq<char>>, y: Seq<Seq<char>>)
    ensures
        device_lines(x + y) == device_lines(x) + device_lines(y),
    decreases y.len(),
{
    if y.len() == 0 {
        assert(x + y =~= x);
        assert(device_lines(x) + device_lines(y) =~= device_lines(x));
    } else {
        lemma_device_lines_concat(x, y.drop_last());
        assert((x + y).drop_last() =~= x + y.drop_last());
        assert((x + y).last() == y.last());
        let p = device_lines(x) + device_lines(y.drop_last());
        let l = trim(y.last());
        if !(l.len() == 0 || l == "List of devices attached"@) {
            if let Some(d) = device_line(l) {
                assert(p.push(d) =~= device_lines(x) + device_lines(y.drop_last()).push(d));
            }
        }
    }
}

/// Each line of the listing is read on its own: the devices of two outputs
/// joined by a line break are those of the first, then those of the second;
/// the header and blank lines describe no device.
pub proof fn devices_of_lines(a: Seq<char>, b: Seq<char>, blank: Seq<char>)
    requires
        !blank.contains('\n'),
        trim(blank).len() == 0,
    ensures
        devices_of(a + seq!['\n'] + b) == devices_of(a) + devices_of(b),
        devices_of("List of devices attached"@) == Seq::<DeviceView>::empty(),
        devices_of(blank) == Seq::<DeviceView>::empty(),
{
    split_concat(a, b, '\n');
    lemma_device_lines_concat(split_at_char(a, '\n'), split_at_char(b, '\n'));
    let h = "List of devices attached"@;
    assert(!h.contains('\n')) by {
        reveal_strlit("List of devices attached");
    }
    split_plain(h, '\n');
    assert(trim(h) == h) by {
        reveal_strlit("List of devices attached");
        assert(!is_ws(h[0]));
        assert(h.drop_first().len() >= 0);
        assert(trim_start(h) == h);
        assert(!is_ws(h.last()));
        assert(trim_end(h) == h);
    }
    assert(seq![h].drop_last() =~= Seq::<Seq<char>>::empty());
    assert(seq![h].last() == h);
    assert(device_lines(Seq::<Seq<char>>::empty()) == Seq::<DeviceView>::empty());
    assert(device_lines(seq![h]) == Seq::<DeviceView>::empty());
    split_plain(blank, '\n');
    assert(seq![blank].drop_last() =~= Seq::<Seq<char>>::empty());
    assert(seq![blank].last() == blank);
    assert(device_lines(seq![blank]) == Seq::<DeviceView>::empty());
}

} // verus!
