//! The messages errors show to the user: a diagnosis and, when there is one,
//! an actionable remedy on the next line.

use vstd::prelude::*;

use crate::adb_error::{AdbError, AdbErrorView};
use crate::error::{ProtoError, ProtoErrorView};
use crate::model::{device_label, Device, DeviceView};
use crate::text::{chars_of, string_of, string_push, string_push_str, trim, trim_chars};

verus! {

/// The decimal digit `d` (0 to 9) as a character.
pub open spec fn digit(d: nat) -> char {
    (48 + d) as char
}

/// The decimal writing of `n`, without leading zeros.
pub open spec fn decimal(n: nat) -> Seq<char>
    decreases n,
{
    if n < 10 {
        seq![digit(n)]
    } else {
        decimal(n / 10).push(digit(n % 10))
    }
}

/// The decimal writing of a signed number, with `-` when negative.
pub open spec fn signed_decimal(v: int) -> Seq<char> {
    if v < 0 {
        seq!['-'] + decimal((-v) as nat)
    } else {
        decimal(v as nat)
    }
}

/// The upper-case hexadecimal digit `d` (0 to 15) as a character.
pub open spec fn hex_digit(d: nat) -> char {
    if d < 10 {
        (48 + d) as char
    } else {
        (55 + d) as char
    }
}

/// A byte in two upper-case hexadecimal digits.
pub open spec fn hex2(b: u8) -> Seq<char> {
    seq![hex_digit((b / 16) as nat), hex_digit((b % 16) as nat)]
}

/// Four bytes as a list in hexadecimal: `[53, 4B, 52, 59]`.
pub open spec fn hex_list(m: Seq<u8>) -> Seq<char> {
    "["@ + hex2(m[0]) + ", "@ + hex2(m[1]) + ", "@ + hex2(m[2]) + ", "@ + hex2(m[3]) + "]"@
}

/// The pieces joined with `sep` between consecutive ones.
pub open spec fn join(pieces: Seq<Seq<char>>, sep: Seq<char>) -> Seq<char>
    decreases pieces.len(),
{
    if pieces.len() == 0 {
        seq![]
    } else if pieces.len() == 1 {
        pieces[0]
    } else {
        join(pieces.drop_last(), sep) + sep + pieces.last()
    }
}

/// One `  - label` line per device.
pub open spec fn device_list(devices: Seq<DeviceView>) -> Seq<char>
    decreases devices.len(),
{
    if devices.len() == 0 {
        seq![]
    } else {
        device_list(devices.drop_last()) + "  - "@ + device_label(devices.last()) + "\n"@
    }
}

/// The message of a protocol error (an I/O failure aside, whose text comes
/// from the failure itself).
pub open spec fn proto_error_text(e: ProtoErrorView) -> Seq<char> {
    match e {
        ProtoErrorView::Io => "error de I/O: "@,
        ProtoErrorView::BadMagic(m) => "magic de handshake invalido: "@ + hex_list(m)
            + " (se esperaba \"SKRY\")"@,
        ProtoErrorView::VersionMismatch { expected, found } =>
            "version de protocolo incompatible: cliente habla v"@ + decimal(expected as nat)
            + ", server habla v"@ + decimal(found as nat),
        ProtoErrorView::UnknownDiscriminant { kind, value } => "valor desconocido para "@ + kind
            + ": "@ + decimal(value as nat),
        ProtoErrorView::LengthExceeded { kind, len, max } => "longitud de "@ + kind
            + " fuera de rango: "@ + decimal(len as nat) + " (max "@ + decimal(max as nat) + ")"@,
        ProtoErrorView::InvalidUtf8 => "cadena UTF-8 invalida"@,
        ProtoErrorView::FrameLenMismatch { header_len, payload_len } => "header.len ("@ + decimal(
            header_len as nat,
        ) + ") no coincide con el payload ("@ + decimal(payload_len as nat) + ")"@,
        ProtoErrorView::AllocFailed { kind, bytes } => "no se pudo reservar "@ + decimal(
            bytes as nat,
        ) + " bytes para "@ + kind,
    }
}

/// The exit code of a failed command as the message shows it.
pub open spec fn code_text(code: Option<i32>) -> Seq<char> {
    match code {
        Some(c) => signed_decimal(c as int),
        None => "senal"@,
    }
}

/// The message of an adb error (an I/O failure aside, whose text comes from
/// the failure itself).
pub open spec fn adb_error_text(e: AdbErrorView) -> Seq<char> {
    match e {
        AdbErrorView::AdbNotFound => "no se encontro 'adb' en el PATH.\n-> Solucion: instala las Android Platform Tools y asegurate de que 'adb' este en el PATH."@,
        AdbErrorView::NoDevice => "no se detecto ningun dispositivo Android.\n-> Solucion: conecta tu celular (USB o Wi-Fi) y verifica que la 'Depuracion' este activa."@,
        AdbErrorView::AmbiguousDevice { devices } => "multiples dispositivos detectados. No se cual usar.\n-> Solucion: volve a ejecutar especificando el serial: skry --serial <ID>\n\nDispositivos disponibles:\n"@ + device_list(devices),
        AdbErrorView::SerialNotFound { serial, available } => "el serial '"@ + serial
            + "' no esta entre los dispositivos conectados.\n\nDispositivos disponibles:\n"@
            + device_list(available),
        AdbErrorView::Unauthorized { serial } => "dispositivo '"@ + serial
            + "' bloqueado (no autorizado).\n-> Solucion: mira la pantalla del celular y acepta el cartel 'Permitir depuracion USB'."@,
        AdbErrorView::NoPermissions { serial } => "sin permisos para acceder al dispositivo '"@
            + serial
            + "' por USB.\n-> Solucion (Linux): instala las reglas udev de Android (paquete android-sdk-platform-tools-common) o agrega una regla para el vendor del dispositivo, despues 'adb kill-server' y reconecta."@,
        AdbErrorView::NotReady { serial, state } => "dispositivo '"@ + serial + "' en estado '"@
            + state
            + "', no operable.\n-> Solucion: reconecta el dispositivo o reinicia la depuracion."@,
        AdbErrorView::CommandFailed { args, code, stderr } => "comando adb fallo (codigo "@
            + code_text(code) + "): adb "@ + join(args, " "@) + "\n"@ + trim(stderr),
        AdbErrorView::Io => "error de I/O al invocar adb: "@,
        AdbErrorView::ConnectFailed { target, detail } => "no se pudo conectar a '"@ + target
            + "': "@ + detail,
        AdbErrorView::PairFailed { target, detail } => "no se pudo emparejar con '"@ + target
            + "': "@ + detail,
    }
}

/// `Display` of an I/O error, through `format!`.
#[verifier::external_body]
fn io_error_text(e: &std::io::Error) -> String {
    format!("{e}")
}

/// Appends the decimal writing of `n`.
fn push_decimal(s: &mut String, n: u64)
    ensures
        final(s)@ == old(s)@ + decimal(n as nat),
    decreases n,
{
    if n >= 10 {
        push_decimal(s, n / 10);
    }
    let d = (n % 10) as u8;
    string_push(s, (48u8 + d) as char);
    proof {
        if n >= 10 {
            assert(decimal(n as nat) == decimal((n / 10) as nat).push(digit((n % 10) as nat)));
        }
    }
    assert(s@ =~= old(s)@ + decimal(n as nat));
}

/// Appends the decimal writing of a signed number.
fn push_signed(s: &mut String, v: i32)
    ensures
        final(s)@ == old(s)@ + signed_decimal(v as int),
{
    if v < 0 {
        string_push(s, '-');
        let m = (0i64 - v as i64) as u64;
        push_decimal(s, m);
        assert(s@ =~= old(s)@ + signed_decimal(v as int));
    } else {
        push_decimal(s, v as u64);
    }
}

/// Appends a byte in two upper-case hexadecimal digits.
fn push_hex2(s: &mut String, b: u8)
    ensures
        final(s)@ == old(s)@ + hex2(b),
{
    let hi = b / 16;
    let lo = b % 16;
    string_push(
        s,
        if hi < 10 {
            (48u8 + hi) as char
        } else {
            (55u8 + hi) as char
        },
    );
    string_push(
        s,
        if lo < 10 {
            (48u8 + lo) as char
        } else {
            (55u8 + lo) as char
        },
    );
    assert(s@ =~= old(s)@ + hex2(b));
}

/// Appends one `  - label` line per device.
fn push_device_list(s: &mut String, devices: &Vec<Device>)
    ensures
        final(s)@ == old(s)@ + device_list(devices.deep_view()),
{
    let ghost ds = devices.deep_view();
    let mut i: usize = 0;
    assert(ds.take(0) =~= Seq::<DeviceView>::empty());
    while i < devices.len()
        invariant
            i <= devices@.len(),
            ds == devices.deep_view(),
            s@ == old(s)@ + device_list(ds.take(i as int)),
        decreases devices@.len() - i,
    {
        assert(ds.take(i + 1).drop_last() =~= ds.take(i as int));
        assert(ds[i as int] == devices[i as int]@);
        string_push_str(s, "  - ");
        let label = devices[i].label();
        string_push_str(s, label.as_str());
        string_push_str(s, "\n");
        i = i + 1;
        assert(s@ =~= old(s)@ + device_list(ds.take(i as int)));
    }
    assert(ds.take(ds.len() as int) =~= ds);
}

/// Appends the pieces joined with single spaces.
fn push_joined(s: &mut String, pieces: &Vec<String>)
    ensures
        final(s)@ == old(s)@ + join(pieces.deep_view(), " "@),
{
    let ghost ps = pieces.deep_view();
    let mut i: usize = 0;
    assert(ps.take(0) =~= Seq::<Seq<char>>::empty());
    while i < pieces.len()
        invariant
            i <= pieces@.len(),
            ps == pieces.deep_view(),
            s@ == old(s)@ + join(ps.take(i as int), " "@),
        decreases pieces@.len() - i,
    {
        assert(ps.take(i + 1).drop_last() =~= ps.take(i as int));
        assert(ps[i as int] == pieces[i as int]@);
        if i > 0 {
            string_push_str(s, " ");
        }
        string_push_str(s, pieces[i].as_str());
        i = i + 1;
        assert(s@ =~= old(s)@ + join(ps.take(i as int), " "@));
    }
    assert(ps.take(ps.len() as int) =~= ps);
}

impl ProtoError {
    /// The message for the user.
    pub fn to_string(&self) -> (r: String)
        ensures
            !(self@ is Io) ==> r@ == proto_error_text(self@),
            self@ is Io ==> exists|t: Seq<char>| r@ == proto_error_text(self@) + t,
    {
        let mut s = String::new();
        match self {
            ProtoError::Io(e) => {
                string_push_str(&mut s, "error de I/O: ");
                let t = io_error_text(e);
                string_push_str(&mut s, t.as_str());
                assert(s@ == proto_error_text(self@) + t@);
            },
            ProtoError::BadMagic(got) => {
                string_push_str(&mut s, "magic de handshake invalido: ");
                string_push_str(&mut s, "[");
                push_hex2(&mut s, got[0]);
                string_push_str(&mut s, ", ");
                push_hex2(&mut s, got[1]);
                string_push_str(&mut s, ", ");
                push_hex2(&mut s, got[2]);
                string_push_str(&mut s, ", ");
                push_hex2(&mut s, got[3]);
                string_push_str(&mut s, "]");
                string_push_str(&mut s, " (se esperaba \"SKRY\")");
                assert(s@ =~= proto_error_text(self@));
            },
            ProtoError::VersionMismatch { expected, found } => {
                string_push_str(&mut s, "version de protocolo incompatible: cliente habla v");
                push_decimal(&mut s, *expected as u64);
                string_push_str(&mut s, ", server habla v");
                push_decimal(&mut s, *found as u64);
                assert(s@ =~= proto_error_text(self@));
            },
            ProtoError::UnknownDiscriminant { kind, value } => {
                string_push_str(&mut s, "valor desconocido para ");
                string_push_str(&mut s, kind);
                string_push_str(&mut s, ": ");
                push_decimal(&mut s, *value as u64);
                assert(s@ =~= proto_error_text(self@));
            },
            ProtoError::LengthExceeded { kind, len, max } => {
                string_push_str(&mut s, "longitud de ");
                string_push_str(&mut s, kind);
                string_push_str(&mut s, " fuera de rango: ");
                push_decimal(&mut s, *len);
                string_push_str(&mut s, " (max ");
                push_decimal(&mut s, *max);
                string_push_str(&mut s, ")");
                assert(s@ =~= proto_error_text(self@));
            },
            ProtoError::InvalidUtf8 => {
                string_push_str(&mut s, "cadena UTF-8 invalida");
                assert(s@ =~= proto_error_text(self@));
            },
            ProtoError::FrameLenMismatch { header_len, payload_len } => {
                string_push_str(&mut s, "header.len (");
                push_decimal(&mut s, *header_len as u64);
                string_push_str(&mut s, ") no coincide con el payload (");
                push_decimal(&mut s, *payload_len as u64);
                string_push_str(&mut s, ")");
                assert(s@ =~= proto_error_text(self@));
            },
            ProtoError::AllocFailed { kind, bytes } => {
                string_push_str(&mut s, "no se pudo reservar ");
                push_decimal(&mut s, *bytes as u64);
                string_push_str(&mut s, " bytes para ");
                string_push_str(&mut s, kind);
                assert(s@ =~= proto_error_text(self@));
            },
        }
        s
    }
}

impl AdbError {
    /// The message for the user: diagnosis and, when there is one, remedy.
    pub fn to_string(&self) -> (r: String)
        ensures
            !(self@ is Io) ==> r@ == adb_error_text(self@),
            self@ is Io ==> exists|t: Seq<char>| r@ == adb_error_text(self@) + t,
    {
        let mut s = String::new();
        match self {
            AdbError::AdbNotFound => {
                string_push_str(&mut s, "no se encontro 'adb' en el PATH.\n-> Solucion: instala las Android Platform Tools y asegurate de que 'adb' este en el PATH.");
                assert(s@ =~= adb_error_text(self@));
            },
            AdbError::NoDevice => {
                string_push_str(&mut s, "no se detecto ningun dispositivo Android.\n-> Solucion: conecta tu celular (USB o Wi-Fi) y verifica que la 'Depuracion' este activa.");
                assert(s@ =~= adb_error_text(self@));
            },
            AdbError::AmbiguousDevice { devices } => {
                string_push_str(&mut s, "multiples dispositivos detectados. No se cual usar.\n-> Solucion: volve a ejecutar especificando el serial: skry --serial <ID>\n\nDispositivos disponibles:\n");
                push_device_list(&mut s, devices);
                assert(s@ =~= adb_error_text(self@));
            },
            AdbError::SerialNotFound { serial, available } => {
                string_push_str(&mut s, "el serial '");
                string_push_str(&mut s, serial.as_str());
                string_push_str(&mut s, "' no esta entre los dispositivos conectados.\n\nDispositivos disponibles:\n");
                push_device_list(&mut s, available);
                assert(s@ =~= adb_error_text(self@));
            },
            AdbError::Unauthorized { serial } => {
                string_push_str(&mut s, "dispositivo '");
                string_push_str(&mut s, serial.as_str());
                string_push_str(&mut s, "' bloqueado (no autorizado).\n-> Solucion: mira la pantalla del celular y acepta el cartel 'Permitir depuracion USB'.");
                assert(s@ =~= adb_error_text(self@));
            },
            AdbError::NoPermissions { serial } => {
                string_push_str(&mut s, "sin permisos para acceder al dispositivo '");
                string_push_str(&mut s, serial.as_str());
                string_push_str(&mut s, "' por USB.\n-> Solucion (Linux): instala las reglas udev de Android (paquete android-sdk-platform-tools-common) o agrega una regla para el vendor del dispositivo, despues 'adb kill-server' y reconecta.");
                assert(s@ =~= adb_error_text(self@));
            },
            AdbError::NotReady { serial, state } => {
                string_push_str(&mut s, "dispositivo '");
                string_push_str(&mut s, serial.as_str());
                string_push_str(&mut s, "' en estado '");
                string_push_str(&mut s, state.as_str());
                string_push_str(&mut s, "', no operable.\n-> Solucion: reconecta el dispositivo o reinicia la depuracion.");
                assert(s@ =~= adb_error_text(self@));
            },
            AdbError::CommandFailed { args, code, stderr } => {
                string_push_str(&mut s, "comando adb fallo (codigo ");
                match code {
                    Some(c) => push_signed(&mut s, *c),
                    None => string_push_str(&mut s, "senal"),
                }
                string_push_str(&mut s, "): adb ");
                push_joined(&mut s, args);
                string_push_str(&mut s, "\n");
                let t = trim_chars(chars_of(stderr.as_str()).as_slice());
                let ts = string_of(t.as_slice());
                string_push_str(&mut s, ts.as_str());
                assert(s@ =~= adb_error_text(self@));
            },
            AdbError::Io(e) => {
                string_push_str(&mut s, "error de I/O al invocar adb: ");
                let t = io_error_text(e);
                string_push_str(&mut s, t.as_str());
                assert(s@ == adb_error_text(self@) + t@);
            },
            AdbError::ConnectFailed { target, detail } => {
                string_push_str(&mut s, "no se pudo conectar a '");
                string_push_str(&mut s, target.as_str());
                string_push_str(&mut s, "': ");
                string_push_str(&mut s, detail.as_str());
                assert(s@ =~= adb_error_text(self@));
            },
            AdbError::PairFailed { target, detail } => {
                string_push_str(&mut s, "no se pudo emparejar con '");
                string_push_str(&mut s, target.as_str());
                string_push_str(&mut s, "': ");
                string_push_str(&mut s, detail.as_str());
                assert(s@ =~= adb_error_text(self@));
            },
        }
        s
    }
}

} // verus!
