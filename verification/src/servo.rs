//! Servos on an LX-16A bus: each operation sends one request packet and, for
//! the reading commands, checks and decodes the response packet.
use crate::byte_order::{u16_from_le, u16_le_bytes};
use crate::codec::{
    decode_u16, decode_u16_pair, encode_u16_pair, led_byte, led_err_byte, led_err_from_byte,
    led_from_byte, lemma_led_err_roundtrip, lemma_led_roundtrip, lemma_mode_roundtrip,
    lemma_powered_roundtrip, lemma_u16_pair_roundtrip, mode_from_params, mode_params,
    powered_byte, powered_from_byte, spec_led_byte, spec_led_err_byte, spec_led_err_from_byte,
    spec_led_from_byte, spec_mode_from_params, spec_mode_params, spec_powered_byte,
    spec_powered_from_byte, spec_temp_from_byte, temp_from_byte, Lx16aMode,
};
use crate::error::{unexpected_eof, Lx16aError};
use crate::packet::{
    check_response, form_packet, lemma_formed_packet_accepted, packet, params_result,
    spec_check_response, FRAME_LEN, MAX_COUNTED_PARAMS_LEN, MAX_PARAMS_LEN,
};
use vstd::prelude::*;
use vstd::slice::slice_subrange;

verus! {

/// The servo id that every servo on the bus obeys.
pub const BROADCAST_ID: u8 = 254;

/// The size of the buffer that a request packet is formed in.
pub const TX_BUFFER_LEN: usize = 32;

pub const SERVO_MOVE_TIME_WRITE: u8 = 1;
pub const SERVO_MOVE_TIME_READ: u8 = 2;
pub const SERVO_MOVE_TIME_WAIT_WRITE: u8 = 7;
pub const SERVO_MOVE_TIME_WAIT_READ: u8 = 8;
pub const SERVO_MOVE_START: u8 = 11;
pub const SERVO_MOVE_STOP: u8 = 12;
pub const SERVO_ID_WRITE: u8 = 13;
pub const SERVO_ID_READ: u8 = 14;
pub const SERVO_ANGLE_OFFSET_ADJUST: u8 = 17;
pub const SERVO_ANGLE_OFFSET_WRITE: u8 = 18;
pub const SERVO_ANGLE_OFFSET_READ: u8 = 19;
pub const SERVO_ANGLE_LIMIT_WRITE: u8 = 20;
pub const SERVO_ANGLE_LIMIT_READ: u8 = 21;
pub const SERVO_VIN_LIMIT_WRITE: u8 = 22;
pub const SERVO_VIN_LIMIT_READ: u8 = 23;
pub const SERVO_TEMP_MAX_LIMIT_WRITE: u8 = 24;
pub const SERVO_TEMP_MAX_LIMIT_READ: u8 = 25;
pub const SERVO_TEMP_READ: u8 = 26;
pub const SERVO_VIN_READ: u8 = 27;
pub const SERVO_POS_READ: u8 = 28;
pub const SERVO_OR_MOTOR_MODE_WRITE: u8 = 29;
pub const SERVO_OR_MOTOR_MODE_READ: u8 = 30;
pub const SERVO_LOAD_OR_UNLOAD_WRITE: u8 = 31;
pub const SERVO_LOAD_OR_UNLOAD_READ: u8 = 32;
pub const SERVO_LED_CTRL_WRITE: u8 = 33;
pub const SERVO_LED_CTRL_READ: u8 = 34;
pub const SERVO_LED_ERROR_WRITE: u8 = 35;
pub const SERVO_LED_ERROR_READ: u8 = 36;

/// The serial line that the servos hang on. Whoever owns the line implements
/// it; each call is one exclusive exchange on the line.
pub trait Port {
    /// Writes `out_data` to the line and flushes it.
    fn write(&self, out_data: &[u8]) -> Result<(), std::io::Error>;

    /// Writes `out_data` to the line, flushes it, then reads exactly `rx_len`
    /// bytes and returns them.
    fn write_read(&self, out_data: &[u8], rx_len: usize) -> Result<Vec<u8>, std::io::Error>;
}

/// What the reply `r` of a port exchange gives for a response of
/// `params_len` parameter bytes to command `cmd` from servo `id`: the port's
/// error as `Io`; for a reply of the size of that response, the outcome of
/// the response check on it; for a reply of another size, an `Io` error.
pub open spec fn reply_outcome(
    r: Result<Vec<u8>, std::io::Error>,
    id: u8,
    cmd: u8,
    params_len: nat,
    res: Result<Seq<u8>, Lx16aError>,
) -> bool {
    match r {
        Err(e) => res == Err::<Seq<u8>, Lx16aError>(Lx16aError::Io(e)),
        Ok(rx) => if rx@.len() == params_len + FRAME_LEN {
            res == spec_check_response(rx@, id, cmd, params_len)
        } else {
            res matches Err(Lx16aError::Io(_))
        },
    }
}

/// `res` reports the outcome of one `port.write_read` handed the bytes
/// `request` and the size of a response of `params_len` parameter bytes, with
/// the reply checked as a response to command `cmd` from servo `id`.
pub open spec fn exchange_outcome<T: Port>(
    port: &T,
    request: Seq<u8>,
    id: u8,
    cmd: u8,
    params_len: nat,
    res: Result<Seq<u8>, Lx16aError>,
) -> bool {
    exists|out: &[u8], r: Result<Vec<u8>, std::io::Error>|
        #[trigger] call_ensures(T::write_read, (port, out, (params_len + FRAME_LEN) as usize), r)
            && out@ == request && reply_outcome(r, id, cmd, params_len, res)
}

/// The value that `decode` gives of checked parameter bytes, or the error.
pub open spec fn decoded<V>(p: Result<Seq<u8>, Lx16aError>, decode: spec_fn(Seq<u8>) -> V) -> Result<
    V,
    Lx16aError,
> {
    match p {
        Ok(q) => Ok(decode(q)),
        Err(e) => Err(e),
    }
}

/// What `decode` makes of checked parameter bytes, or the error.
pub open spec fn decoded_checked<V>(
    p: Result<Seq<u8>, Lx16aError>,
    decode: spec_fn(Seq<u8>) -> Result<V, Lx16aError>,
) -> Result<V, Lx16aError> {
    match p {
        Ok(q) => decode(q),
        Err(e) => Err(e),
    }
}

/// `res` reports an outcome of `port.write` handed bytes `out_data`: `Ok`
/// where that write succeeded, `Io` with its error where it failed.
pub open spec fn write_outcome<T: Port>(port: &T, out_data: Seq<u8>, res: Result<(), Lx16aError>) -> bool {
    exists|s: &[u8], r: Result<(), std::io::Error>|
        #[trigger] call_ensures(T::write, (port, s), r) && s@ == out_data && match (r, res) {
            (Ok(_), Ok(_)) => true,
            (Err(e), Err(Lx16aError::Io(f))) => e == f,
            _ => false,
        }
}

/// A reply that is the packet carrying `params` for command `cmd` from
/// servo `id` is read as exactly those parameters.
pub proof fn lemma_echo_read(rx: Vec<u8>, id: u8, cmd: u8, params: Seq<u8>, res: Result<Seq<u8>, Lx16aError>)
    requires
        params.len() <= MAX_COUNTED_PARAMS_LEN,
        rx@ == packet(id, cmd, params),
        reply_outcome(Ok::<Vec<u8>, std::io::Error>(rx), id, cmd, params.len(), res),
    ensures
        res == Ok::<Seq<u8>, Lx16aError>(params),
{
    lemma_formed_packet_accepted(id, cmd, params);
}

/// When the servo answers a mode reading with the parameters that selecting
/// `mode` sends, the reading gives `mode`.
pub proof fn lemma_mode_reads_back(rx: Vec<u8>, id: u8, mode: Lx16aMode, p: Result<Seq<u8>, Lx16aError>)
    requires
        rx@ == packet(id, SERVO_OR_MOTOR_MODE_READ, spec_mode_params(mode)),
        reply_outcome(Ok::<Vec<u8>, std::io::Error>(rx), id, SERVO_OR_MOTOR_MODE_READ, 4, p),
    ensures
        decoded_checked(p, |q: Seq<u8>| spec_mode_from_params(q)) == Ok::<Lx16aMode, Lx16aError>(mode),
{
    lemma_echo_read(rx, id, SERVO_OR_MOTOR_MODE_READ, spec_mode_params(mode), p);
    lemma_mode_roundtrip(mode);
}

/// When the servo answers a load state reading with the byte that setting
/// `powered` sends, the reading gives `powered`.
pub proof fn lemma_powered_reads_back(rx: Vec<u8>, id: u8, powered: bool, p: Result<Seq<u8>, Lx16aError>)
    requires
        rx@ == packet(id, SERVO_LOAD_OR_UNLOAD_READ, seq![spec_powered_byte(powered)]),
        reply_outcome(Ok::<Vec<u8>, std::io::Error>(rx), id, SERVO_LOAD_OR_UNLOAD_READ, 1, p),
    ensures
        decoded_checked(p, |q: Seq<u8>| spec_powered_from_byte(q[0])) == Ok::<bool, Lx16aError>(powered),
{
    lemma_echo_read(rx, id, SERVO_LOAD_OR_UNLOAD_READ, seq![spec_powered_byte(powered)], p);
    lemma_powered_roundtrip(powered);
}

/// When the servo answers an LED reading with the byte that setting `on`
/// sends, the reading gives `on`.
pub proof fn lemma_led_reads_back(rx: Vec<u8>, id: u8, on: bool, p: Result<Seq<u8>, Lx16aError>)
    requires
        rx@ == packet(id, SERVO_LED_CTRL_READ, seq![spec_led_byte(on)]),
        reply_outcome(Ok::<Vec<u8>, std::io::Error>(rx), id, SERVO_LED_CTRL_READ, 1, p),
    ensures
        decoded_checked(p, |q: Seq<u8>| spec_led_from_byte(q[0])) == Ok::<bool, Lx16aError>(on),
{
    lemma_echo_read(rx, id, SERVO_LED_CTRL_READ, seq![spec_led_byte(on)], p);
    lemma_led_roundtrip(on);
}

/// When the servo answers an LED error reading with the mask that setting
/// the three conditions sends, the reading gives those conditions.
pub proof fn lemma_led_err_reads_back(
    rx: Vec<u8>,
    id: u8,
    over_temp: bool,
    over_voltage: bool,
    locked_rotor: bool,
    p: Result<Seq<u8>, Lx16aError>,
)
    requires
        rx@ == packet(
            id,
            SERVO_LED_ERROR_READ,
            seq![spec_led_err_byte(over_temp, over_voltage, locked_rotor)],
        ),
        reply_outcome(Ok::<Vec<u8>, std::io::Error>(rx), id, SERVO_LED_ERROR_READ, 1, p),
    ensures
        decoded(p, |q: Seq<u8>| spec_led_err_from_byte(q[0])) == Ok::<(bool, bool, bool), Lx16aError>(
            (over_temp, over_voltage, locked_rotor),
        ),
{
    let b = spec_led_err_byte(over_temp, over_voltage, locked_rotor);
    lemma_echo_read(rx, id, SERVO_LED_ERROR_READ, seq![b], p);
    lemma_led_err_roundtrip(over_temp, over_voltage, locked_rotor);
}

/// When the servo answers a reading of two 16-bit values (a prepared move,
/// the angle limits, the input voltage limits) with the bytes that setting
/// `first` and `second` sends, the reading gives `first` and `second`.
pub proof fn lemma_u16_pair_reads_back(
    rx: Vec<u8>,
    id: u8,
    cmd: u8,
    first: u16,
    second: u16,
    p: Result<Seq<u8>, Lx16aError>,
)
    requires
        rx@ == packet(id, cmd, u16_le_bytes(first) + u16_le_bytes(second)),
        reply_outcome(Ok::<Vec<u8>, std::io::Error>(rx), id, cmd, 4, p),
    ensures
        decoded(p, |q: Seq<u8>| (u16_from_le(q[0], q[1]), u16_from_le(q[2], q[3]))) == Ok::<
            (u16, u16),
            Lx16aError,
        >((first, second)),
{
    lemma_echo_read(rx, id, cmd, u16_le_bytes(first) + u16_le_bytes(second), p);
    lemma_u16_pair_roundtrip(first, second);
}

/// An LX-16A bus: the line that its servos share.
pub struct Lx16aBus<T: Port> {
    port: T,
}

impl<'a, T: Port> Lx16aBus<T> {
    /// The line of the bus.
    pub closed spec fn port(&self) -> T {
        self.port
    }

    /// Creates a bus on `port`.
    pub fn new(port: T) -> (bus: Lx16aBus<T>)
        ensures
            bus.port() == port,
    {
        Lx16aBus { port }
    }

    /// The handle that addresses every servo on the bus at once.
    pub fn broadcast(&'a self) -> (servo: Lx16a<'a, T>)
        ensures
            servo.id() == BROADCAST_ID,
            servo.bus() == *self,
    {
        Lx16a::new(BROADCAST_ID, self)
    }

    /// The handle that addresses the servo with id `id`.
    pub fn servo(&'a self, id: u8) -> (servo: Lx16a<'a, T>)
        ensures
            servo.id() == id,
            servo.bus() == *self,
    {
        Lx16a::new(id, self)
    }

    /// Writes `out_data` to the line.
    pub fn write(&self, out_data: &[u8]) -> (res: Result<(), std::io::Error>)
        ensures
            call_ensures(T::write, (&self.port(), out_data), res),
    {
        self.port.write(out_data)
    }

    /// Writes `out_data` to the line, then reads the response into `rx_data`,
    /// and returns the number of bytes read: all of `rx_data`. A response of
    /// another size than `rx_data` is an `UnexpectedEof` error.
    pub fn write_read(&self, out_data: &[u8], rx_data: &mut [u8]) -> (res: Result<
        usize,
        std::io::Error,
    >)
        ensures
            final(rx_data)@.len() == old(rx_data)@.len(),
            match res {
                Ok(n) => n == old(rx_data)@.len() && exists|rx: Vec<u8>|
                    #[trigger] call_ensures(
                        T::write_read,
                        (&self.port(), out_data, n),
                        Ok::<Vec<u8>, std::io::Error>(rx),
                    ) && final(rx_data)@ == rx@,
                Err(e) => call_ensures(
                    T::write_read,
                    (&self.port(), out_data, old(rx_data)@.len() as usize),
                    Err::<Vec<u8>, std::io::Error>(e),
                ) || exists|rx: Vec<u8>|
                    #[trigger] call_ensures(
                        T::write_read,
                        (&self.port(), out_data, old(rx_data)@.len() as usize),
                        Ok::<Vec<u8>, std::io::Error>(rx),
                    ) && rx@.len() != old(rx_data)@.len(),
            },
    {
        let rx_len = rx_data.len();
        match self.port.write_read(out_data, rx_len) {
            Ok(rx) => {
                if rx.len() != rx_len {
                    return Err(unexpected_eof());
                }
                let mut i: usize = 0;
                while i < rx_len
                    invariant
                        rx_len == rx@.len(),
                        rx_data@.len() == rx_len,
                        rx_len == old(rx_data)@.len(),
                        i <= rx_len,
                        forall|k: int| 0 <= k < i ==> rx_data@[k] == rx@[k],
                    decreases rx_len - i,
                {
                    rx_data[i] = rx[i];
                    i = i + 1;
                }
                assert(rx_data@ =~= rx@);
                Ok(rx_len)
            },
            Err(e) => Err(e),
        }
    }
}

/// One servo on an LX-16A bus, or all of them through the broadcast id.
pub struct Lx16a<'a, T: Port> {
    id: u8,
    bus: &'a Lx16aBus<T>,
}

impl<'a, T: Port> Lx16a<'a, T> {
    /// The id that the handle addresses.
    pub closed spec fn id(&self) -> u8 {
        self.id
    }

    /// The bus that the handle talks on.
    pub closed spec fn bus(&self) -> Lx16aBus<T> {
        *self.bus
    }

    /// `res` reports an outcome of writing, on the bus, the packet that
    /// carries command `cmd` with `params` to this servo.
    pub open spec fn sent(&self, cmd: u8, params: Seq<u8>, res: Result<(), Lx16aError>) -> bool {
        write_outcome(&self.bus().port(), packet(self.id(), cmd, params), res)
    }

    /// `res` reports the outcome of asking this servo, on the bus, for
    /// command `cmd` and a response of `params_len` parameter bytes.
    pub open spec fn received(&self, cmd: u8, params_len: nat, res: Result<Seq<u8>, Lx16aError>) -> bool {
        exchange_outcome(
            &self.bus().port(),
            packet(self.id(), cmd, Seq::empty()),
            self.id(),
            cmd,
            params_len,
            res,
        )
    }

    fn new(id: u8, bus: &'a Lx16aBus<T>) -> (servo: Lx16a<'a, T>)
        ensures
            servo.id() == id,
            servo.bus() == *bus,
    {
        Lx16a { id, bus }
    }

    /// The id that the handle addresses.
    pub fn get_id(&self) -> (id: u8)
        ensures
            id == self.id(),
    {
        self.id
    }

    /// Moves to position `pos` within `time_ms` milliseconds, starting now.
    pub fn move_time(&self, pos: u16, time_ms: u16) -> (res: Result<(), Lx16aError>)
        ensures
            self.sent(SERVO_MOVE_TIME_WRITE, u16_le_bytes(pos) + u16_le_bytes(time_ms), res),
    {
        let params = encode_u16_pair(pos, time_ms);
        self.write(self.id, SERVO_MOVE_TIME_WRITE, params.as_slice())
    }

    /// The position and time of the last `move_time`.
    pub fn read_move_time(&self) -> (res: Result<(u16, u16), Lx16aError>)
        ensures
            exists|p: Result<Seq<u8>, Lx16aError>|
                #[trigger] self.received(SERVO_MOVE_TIME_READ, 4, p) && res == decoded(p, |q: Seq<u8>| (u16_from_le(q[0], q[1]), u16_from_le(q[2], q[3]))),
    {
        let params: Vec<u8> = Vec::new();
        let reply = self.read(self.id, SERVO_MOVE_TIME_READ, params.as_slice(), 4);
        proof {
            assert(params@ =~= Seq::<u8>::empty());
            assert(self.received(SERVO_MOVE_TIME_READ, 4, params_result(reply)));
        }
        let response = match reply {
            Ok(response) => response,
            Err(e) => return Err(e),
        };
        Ok(decode_u16_pair(response.as_slice()))
    }

    /// Prepares a move to position `pos` within `time_ms` milliseconds, to
    /// start on `move_start`.
    pub fn move_wait(&self, pos: u16, time_ms: u16) -> (res: Result<(), Lx16aError>)
        ensures
            self.sent(SERVO_MOVE_TIME_WAIT_WRITE, u16_le_bytes(pos) + u16_le_bytes(time_ms), res),
    {
        let params = encode_u16_pair(pos, time_ms);
        self.write(self.id, SERVO_MOVE_TIME_WAIT_WRITE, params.as_slice())
    }

    /// The position and time of the prepared move.
    pub fn read_move_wait(&self) -> (res: Result<(u16, u16), Lx16aError>)
        ensures
            exists|p: Result<Seq<u8>, Lx16aError>|
                #[trigger] self.received(SERVO_MOVE_TIME_WAIT_READ, 4, p) && res == decoded(p, |q: Seq<u8>| (u16_from_le(q[0], q[1]), u16_from_le(q[2], q[3]))),
    {
        let params: Vec<u8> = Vec::new();
        let reply = self.read(self.id, SERVO_MOVE_TIME_WAIT_READ, params.as_slice(), 4);
        proof {
            assert(params@ =~= Seq::<u8>::empty());
            assert(self.received(SERVO_MOVE_TIME_WAIT_READ, 4, params_result(reply)));
        }
        let response = match reply {
            Ok(response) => response,
            Err(e) => return Err(e),
        };
        Ok(decode_u16_pair(response.as_slice()))
    }

    /// Starts the prepared move.
    pub fn move_start(&self) -> (res: Result<(), Lx16aError>)
        ensures
            self.sent(SERVO_MOVE_START, Seq::empty(), res),
    {
        let params: Vec<u8> = Vec::new();
        self.write(self.id, SERVO_MOVE_START, params.as_slice())
    }

    /// Stops the servo where it is.
    pub fn move_stop(&self) -> (res: Result<(), Lx16aError>)
        ensures
            self.sent(SERVO_MOVE_STOP, Seq::empty(), res),
    {
        let params: Vec<u8> = Vec::new();
        self.write(self.id, SERVO_MOVE_STOP, params.as_slice())
    }

    /// Gives the servo the new id `id`.
    pub fn set_servo_id(&self, id: u8) -> (res: Result<(), Lx16aError>)
        ensures
            self.sent(SERVO_ID_WRITE, seq![id], res),
    {
        let mut params: Vec<u8> = Vec::new();
        params.push(id);
        self.write(self.id, SERVO_ID_WRITE, params.as_slice())
    }

    /// The id that the servo reports.
    pub fn read_servo_id(&self) -> (res: Result<u8, Lx16aError>)
        ensures
            exists|p: Result<Seq<u8>, Lx16aError>|
                #[trigger] self.received(SERVO_ID_READ, 1, p) && res == decoded(p, |q: Seq<u8>| q[0]),
    {
        let params: Vec<u8> = Vec::new();
        let reply = self.read(self.id, SERVO_ID_READ, params.as_slice(), 1);
        proof {
            assert(params@ =~= Seq::<u8>::empty());
            assert(self.received(SERVO_ID_READ, 1, params_result(reply)));
        }
        let response = match reply {
            Ok(response) => response,
            Err(e) => return Err(e),
        };
        Ok(response[0])
    }

    /// Adjusts the angle offset to `offset`, which must lie in -125..=125;
    /// the adjustment is lost on power-down unless saved.
    pub fn set_angle_offset(&self, offset: i8) -> (res: Result<(), Lx16aError>)
        ensures
            offset < -125 || offset > 125 ==> res matches Err(Lx16aError::OffsetOutOfRange),
            -125 <= offset <= 125 ==> self.sent(SERVO_ANGLE_OFFSET_ADJUST, seq![offset as u8], res),
    {
        if (offset < -125) || (offset > 125) {
            return Err(Lx16aError::OffsetOutOfRange);
        }
        let mut params: Vec<u8> = Vec::new();
        params.push(offset as u8);
        self.write(self.id, SERVO_ANGLE_OFFSET_ADJUST, params.as_slice())
    }

    /// Saves the adjusted angle offset.
    pub fn save_angle_offset(&self) -> (res: Result<(), Lx16aError>)
        ensures
            self.sent(SERVO_ANGLE_OFFSET_WRITE, Seq::empty(), res),
    {
        let params: Vec<u8> = Vec::new();
        self.write(self.id, SERVO_ANGLE_OFFSET_WRITE, params.as_slice())
    }

    /// The angle offset byte that the servo reports.
    pub fn read_angle_offset(&self) -> (res: Result<u8, Lx16aError>)
        ensures
            exists|p: Result<Seq<u8>, Lx16aError>|
                #[trigger] self.received(SERVO_ANGLE_OFFSET_READ, 1, p) && res == decoded(p, |q: Seq<u8>| q[0]),
    {
        let params: Vec<u8> = Vec::new();
        let reply = self.read(self.id, SERVO_ANGLE_OFFSET_READ, params.as_slice(), 1);
        proof {
            assert(params@ =~= Seq::<u8>::empty());
            assert(self.received(SERVO_ANGLE_OFFSET_READ, 1, params_result(reply)));
        }
        let response = match reply {
            Ok(response) => response,
            Err(e) => return Err(e),
        };
        Ok(response[0])
    }

    /// Limits the angle to `minimum..=maximum`.
    pub fn set_angle_limit(&self, minimum: u16, maximum: u16) -> (res: Result<(), Lx16aError>)
        ensures
            self.sent(SERVO_ANGLE_LIMIT_WRITE, u16_le_bytes(minimum) + u16_le_bytes(maximum), res),
    {
        let params = encode_u16_pair(minimum, maximum);
        self.write(self.id, SERVO_ANGLE_LIMIT_WRITE, params.as_slice())
    }

    /// The angle limits, minimum first.
    pub fn read_angle_limit(&self) -> (res: Result<(u16, u16), Lx16aError>)
        ensures
            exists|p: Result<Seq<u8>, Lx16aError>|
                #[trigger] self.received(SERVO_ANGLE_LIMIT_READ, 4, p) && res == decoded(p, |q: Seq<u8>| (u16_from_le(q[0], q[1]), u16_from_le(q[2], q[3]))),
    {
        let params: Vec<u8> = Vec::new();
        let reply = self.read(self.id, SERVO_ANGLE_LIMIT_READ, params.as_slice(), 4);
        proof {
            assert(params@ =~= Seq::<u8>::empty());
            assert(self.received(SERVO_ANGLE_LIMIT_READ, 4, params_result(reply)));
        }
        let response = match reply {
            Ok(response) => response,
            Err(e) => return Err(e),
        };
        Ok(decode_u16_pair(response.as_slice()))
    }

    /// Limits the input voltage to `minimum..maximum` millivolts; both must
    /// lie in 4500..=12000 and `minimum` must be below `maximum`.
    pub fn set_vin_limit_mv(&self, minimum: u16, maximum: u16) -> (res: Result<(), Lx16aError>)
        ensures
            minimum < 4500 || minimum > 12000 ==> res matches Err(
                Lx16aError::VinMinimumOutOfRange,
            ),
            4500 <= minimum <= 12000 && (maximum < 4500 || maximum > 12000) ==> res matches Err(
                Lx16aError::VinMaximumOutOfRange,
            ),
            4500 <= minimum <= 12000 && 4500 <= maximum <= 12000 && minimum >= maximum
                ==> res matches Err(Lx16aError::VinMinimumNotBelowMaximum),
            4500 <= minimum < maximum <= 12000 ==> self.sent(
                SERVO_VIN_LIMIT_WRITE,
                u16_le_bytes(minimum) + u16_le_bytes(maximum),
                res,
            ),
    {
        if (minimum < 4500) || (minimum > 12000) {
            return Err(Lx16aError::VinMinimumOutOfRange);
        }
        if (maximum < 4500) || (maximum > 12000) {
            return Err(Lx16aError::VinMaximumOutOfRange);
        }
        if minimum >= maximum {
            return Err(Lx16aError::VinMinimumNotBelowMaximum);
        }
        let params = encode_u16_pair(minimum, maximum);
        self.write(self.id, SERVO_VIN_LIMIT_WRITE, params.as_slice())
    }

    /// The input voltage limits in millivolts, minimum first.
    pub fn read_vin_limit_mv(&self) -> (res: Result<(u16, u16), Lx16aError>)
        ensures
            exists|p: Result<Seq<u8>, Lx16aError>|
                #[trigger] self.received(SERVO_VIN_LIMIT_READ, 4, p) && res == decoded(p, |q: Seq<u8>| (u16_from_le(q[0], q[1]), u16_from_le(q[2], q[3]))),
    {
        let params: Vec<u8> = Vec::new();
        let reply = self.read(self.id, SERVO_VIN_LIMIT_READ, params.as_slice(), 4);
        proof {
            assert(params@ =~= Seq::<u8>::empty());
            assert(self.received(SERVO_VIN_LIMIT_READ, 4, params_result(reply)));
        }
        let response = match reply {
            Ok(response) => response,
            Err(e) => return Err(e),
        };
        Ok(decode_u16_pair(response.as_slice()))
    }

    /// Sets the highest temperature, in degrees Celsius, that the servo runs
    /// at; `limit_c` must lie in 50..=85.
    pub fn set_temp_limit_c(&self, limit_c: u8) -> (res: Result<(), Lx16aError>)
        ensures
            limit_c < 50 || limit_c > 85 ==> res matches Err(Lx16aError::TempLimitOutOfRange),
            50 <= limit_c <= 85 ==> self.sent(SERVO_TEMP_MAX_LIMIT_WRITE, seq![limit_c], res),
    {
        if (limit_c < 50) || (limit_c > 85) {
            return Err(Lx16aError::TempLimitOutOfRange);
        }
        let mut params: Vec<u8> = Vec::new();
        params.push(limit_c);
        self.write(self.id, SERVO_TEMP_MAX_LIMIT_WRITE, params.as_slice())
    }

    /// The temperature limit in degrees Celsius.
    pub fn read_temp_limit_c(&self) -> (res: Result<u8, Lx16aError>)
        ensures
            exists|p: Result<Seq<u8>, Lx16aError>|
                #[trigger] self.received(SERVO_TEMP_MAX_LIMIT_READ, 1, p) && res == decoded(p, |q: Seq<u8>| q[0]),
    {
        let params: Vec<u8> = Vec::new();
        let reply = self.read(self.id, SERVO_TEMP_MAX_LIMIT_READ, params.as_slice(), 1);
        proof {
            assert(params@ =~= Seq::<u8>::empty());
            assert(self.received(SERVO_TEMP_MAX_LIMIT_READ, 1, params_result(reply)));
        }
        let response = match reply {
            Ok(response) => response,
            Err(e) => return Err(e),
        };
        let limit = response[0];
        Ok(limit)
    }

    /// The temperature of the servo in degrees Celsius.
    pub fn read_temp_c(&self) -> (res: Result<i8, Lx16aError>)
        ensures
            exists|p: Result<Seq<u8>, Lx16aError>|
                #[trigger] self.received(SERVO_TEMP_READ, 1, p) && res == decoded(p, |q: Seq<u8>| spec_temp_from_byte(q[0]) as i8),
    {
        let params: Vec<u8> = Vec::new();
        let reply = self.read(self.id, SERVO_TEMP_READ, params.as_slice(), 1);
        proof {
            assert(params@ =~= Seq::<u8>::empty());
            assert(self.received(SERVO_TEMP_READ, 1, params_result(reply)));
        }
        let response = match reply {
            Ok(response) => response,
            Err(e) => return Err(e),
        };
        Ok(temp_from_byte(response[0]))
    }

    /// The input voltage in millivolts.
    pub fn read_vin_mv(&self) -> (res: Result<u16, Lx16aError>)
        ensures
            exists|p: Result<Seq<u8>, Lx16aError>|
                #[trigger] self.received(SERVO_VIN_READ, 2, p) && res == decoded(p, |q: Seq<u8>| u16_from_le(q[0], q[1])),
    {
        let params: Vec<u8> = Vec::new();
        let reply = self.read(self.id, SERVO_VIN_READ, params.as_slice(), 2);
        proof {
            assert(params@ =~= Seq::<u8>::empty());
            assert(self.received(SERVO_VIN_READ, 2, params_result(reply)));
        }
        let response = match reply {
            Ok(response) => response,
            Err(e) => return Err(e),
        };
        Ok(decode_u16(response.as_slice()))
    }

    /// The position of the servo.
    pub fn read_pos(&self) -> (res: Result<u16, Lx16aError>)
        ensures
            exists|p: Result<Seq<u8>, Lx16aError>|
                #[trigger] self.received(SERVO_POS_READ, 2, p) && res == decoded(p, |q: Seq<u8>| u16_from_le(q[0], q[1])),
    {
        let params: Vec<u8> = Vec::new();
        let reply = self.read(self.id, SERVO_POS_READ, params.as_slice(), 2);
        proof {
            assert(params@ =~= Seq::<u8>::empty());
            assert(self.received(SERVO_POS_READ, 2, params_result(reply)));
        }
        let response = match reply {
            Ok(response) => response,
            Err(e) => return Err(e),
        };
        Ok(decode_u16(response.as_slice()))
    }

    /// Switches to position control or to motor mode at a given speed.
    pub fn set_mode(&self, mode: Lx16aMode) -> (res: Result<(), Lx16aError>)
        ensures
            self.sent(SERVO_OR_MOTOR_MODE_WRITE, spec_mode_params(mode), res),
    {
        let params = mode_params(mode);
        self.write(self.id, SERVO_OR_MOTOR_MODE_WRITE, params.as_slice())
    }

    /// The mode of the servo.
    pub fn read_mode(&self) -> (res: Result<Lx16aMode, Lx16aError>)
        ensures
            exists|p: Result<Seq<u8>, Lx16aError>|
                #[trigger] self.received(SERVO_OR_MOTOR_MODE_READ, 4, p) && res == decoded_checked(p, |q: Seq<u8>| spec_mode_from_params(q)),
    {
        let params: Vec<u8> = Vec::new();
        let reply = self.read(self.id, SERVO_OR_MOTOR_MODE_READ, params.as_slice(), 4);
        proof {
            assert(params@ =~= Seq::<u8>::empty());
            assert(self.received(SERVO_OR_MOTOR_MODE_READ, 4, params_result(reply)));
        }
        let response = match reply {
            Ok(response) => response,
            Err(e) => return Err(e),
        };
        mode_from_params(response.as_slice())
    }

    /// Powers the motor (`true`) or unloads it (`false`).
    pub fn set_powered(&self, powered: bool) -> (res: Result<(), Lx16aError>)
        ensures
            self.sent(SERVO_LOAD_OR_UNLOAD_WRITE, seq![spec_powered_byte(powered)], res),
    {
        let powered_u8 = powered_byte(powered);
        let mut params: Vec<u8> = Vec::new();
        params.push(powered_u8);
        self.write(self.id, SERVO_LOAD_OR_UNLOAD_WRITE, params.as_slice())
    }

    /// Whether the motor is powered.
    pub fn read_powered(&self) -> (res: Result<bool, Lx16aError>)
        ensures
            exists|p: Result<Seq<u8>, Lx16aError>|
                #[trigger] self.received(SERVO_LOAD_OR_UNLOAD_READ, 1, p) && res == decoded_checked(p, |q: Seq<u8>| spec_powered_from_byte(q[0])),
    {
        let params: Vec<u8> = Vec::new();
        let reply = self.read(self.id, SERVO_LOAD_OR_UNLOAD_READ, params.as_slice(), 1);
        proof {
            assert(params@ =~= Seq::<u8>::empty());
            assert(self.received(SERVO_LOAD_OR_UNLOAD_READ, 1, params_result(reply)));
        }
        let response = match reply {
            Ok(response) => response,
            Err(e) => return Err(e),
        };
        powered_from_byte(response[0])
    }

    /// Turns the LED on (`true`) or off (`false`).
    pub fn set_led(&self, on: bool) -> (res: Result<(), Lx16aError>)
        ensures
            self.sent(SERVO_LED_CTRL_WRITE, seq![spec_led_byte(on)], res),
    {
        let led_state = led_byte(on);
        let mut params: Vec<u8> = Vec::new();
        params.push(led_state);
        self.write(self.id, SERVO_LED_CTRL_WRITE, params.as_slice())
    }

    /// Whether the LED is on.
    pub fn read_led(&self) -> (res: Result<bool, Lx16aError>)
        ensures
            exists|p: Result<Seq<u8>, Lx16aError>|
                #[trigger] self.received(SERVO_LED_CTRL_READ, 1, p) && res == decoded_checked(p, |q: Seq<u8>| spec_led_from_byte(q[0])),
    {
        let params: Vec<u8> = Vec::new();
        let reply = self.read(self.id, SERVO_LED_CTRL_READ, params.as_slice(), 1);
        proof {
            assert(params@ =~= Seq::<u8>::empty());
            assert(self.received(SERVO_LED_CTRL_READ, 1, params_result(reply)));
        }
        let response = match reply {
            Ok(response) => response,
            Err(e) => return Err(e),
        };
        led_from_byte(response[0])
    }

    /// Chooses the faults on which the LED flashes: over-temperature,
    /// over-voltage, locked rotor.
    pub fn set_led_err(&self, over_temp: bool, over_voltage: bool, locked_rotor: bool) -> (res:
        Result<(), Lx16aError>)
        ensures
            self.sent(
                SERVO_LED_ERROR_WRITE,
                seq![spec_led_err_byte(over_temp, over_voltage, locked_rotor)],
                res,
            ),
    {
        let led_err_state = led_err_byte(over_temp, over_voltage, locked_rotor);
        let mut params: Vec<u8> = Vec::new();
        params.push(led_err_state);
        self.write(self.id, SERVO_LED_ERROR_WRITE, params.as_slice())
    }

    /// The faults on which the LED flashes: over-temperature, over-voltage,
    /// locked rotor.
    pub fn read_led_err(&self) -> (res: Result<(bool, bool, bool), Lx16aError>)
        ensures
            exists|p: Result<Seq<u8>, Lx16aError>|
                #[trigger] self.received(SERVO_LED_ERROR_READ, 1, p) && res == decoded(p, |q: Seq<u8>| spec_led_err_from_byte(q[0])),
    {
        let params: Vec<u8> = Vec::new();
        let reply = self.read(self.id, SERVO_LED_ERROR_READ, params.as_slice(), 1);
        proof {
            assert(params@ =~= Seq::<u8>::empty());
            assert(self.received(SERVO_LED_ERROR_READ, 1, params_result(reply)));
        }
        let response = match reply {
            Ok(response) => response,
            Err(e) => return Err(e),
        };
        Ok(led_err_from_byte(response[0]))
    }

    /// Sends command `cmd` with `params` to servo `id`.
    fn write(&self, id: u8, cmd: u8, params: &[u8]) -> (res: Result<(), Lx16aError>)
        requires
            params@.len() <= MAX_PARAMS_LEN,
        ensures
            write_outcome(&self.bus().port(), packet(id, cmd, params@), res),
    {
        let mut tx_data: Vec<u8> = vec![0u8; TX_BUFFER_LEN];
        let tx_data_len = form_packet(tx_data.as_mut_slice(), id, cmd, params);
        let request = slice_subrange(tx_data.as_slice(), 0, tx_data_len);
        assert(request@ =~= packet(id, cmd, params@));
        match self.bus.write(request) {
            Ok(()) => Ok(()),
            Err(e) => Err(Lx16aError::Io(e)),
        }
    }

    /// Sends command `cmd` with `params` to servo `id`, reads the response of
    /// `params_len` parameter bytes, checks it, and returns its parameters.
    fn read(&self, id: u8, cmd: u8, params: &[u8], params_len: usize) -> (res: Result<
        Vec<u8>,
        Lx16aError,
    >)
        requires
            params@.len() <= MAX_PARAMS_LEN,
            params_len <= MAX_COUNTED_PARAMS_LEN,
        ensures
            exchange_outcome(
                &self.bus().port(),
                packet(id, cmd, params@),
                id,
                cmd,
                params_len as nat,
                params_result(res),
            ),
    {
        let mut tx_data: Vec<u8> = vec![0u8; TX_BUFFER_LEN];
        let tx_data_len = form_packet(tx_data.as_mut_slice(), id, cmd, params);
        let resp_len = params_len + FRAME_LEN;
        let mut rx_buf: Vec<u8> = vec![0u8; resp_len];
        let request = slice_subrange(tx_data.as_slice(), 0, tx_data_len);
        assert(request@ =~= packet(id, cmd, params@));
        let ghost port = self.bus().port();
        let ghost n = resp_len;
        match self.bus.write_read(request, rx_buf.as_mut_slice()) {
            Ok(_) => {},
            Err(e) => {
                let res = Err(Lx16aError::Io(e));
                proof {
                    if call_ensures(T::write_read, (&port, request, n), Err::<Vec<u8>, std::io::Error>(e)) {
                        assert(reply_outcome(Err::<Vec<u8>, std::io::Error>(e), id, cmd, params_len as nat, params_result(res)));
                    } else {
                        let rx = choose|rx: Vec<u8>|
                            #[trigger] call_ensures(T::write_read, (&port, request, n), Ok::<Vec<u8>, std::io::Error>(rx))
                                && rx@.len() != n;
                        assert(reply_outcome(Ok::<Vec<u8>, std::io::Error>(rx), id, cmd, params_len as nat, params_result(res)));
                    }
                }
                return res;
            },
        }
        let res = check_response(rx_buf.as_slice(), id, cmd, params_len);
        proof {
            let rx = choose|rx: Vec<u8>|
                #[trigger] call_ensures(T::write_read, (&port, request, n), Ok::<Vec<u8>, std::io::Error>(rx))
                    && rx_buf@ == rx@;
            assert(reply_outcome(Ok::<Vec<u8>, std::io::Error>(rx), id, cmd, params_len as nat, params_result(res)));
        }
        res
    }
}

} // verus!
