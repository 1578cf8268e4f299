use std::cell::RefCell;
use std::io;
use std::rc::Rc;

use lx16a::packet::form_packet;
use lx16a::{Lx16aBus, Lx16aError, Lx16aMode, Port};

/// What a mock line saw and what it answers.
struct Line {
    sent: Vec<Vec<u8>>,
    reply: Vec<u8>,
    broken: bool,
    whole_reply: bool,
}

/// A line that records what is written and answers with a scripted reply.
struct MockPort(Rc<RefCell<Line>>);

impl Port for MockPort {
    fn write(&self, out_data: &[u8]) -> io::Result<()> {
        let mut line = self.0.borrow_mut();
        if line.broken {
            return Err(io::Error::new(io::ErrorKind::BrokenPipe, "line down"));
        }
        line.sent.push(out_data.to_vec());
        Ok(())
    }

    fn write_read(&self, out_data: &[u8], rx_len: usize) -> io::Result<Vec<u8>> {
        self.write(out_data)?;
        let line = self.0.borrow();
        if line.whole_reply {
            return Ok(line.reply.clone());
        }
        if line.reply.len() < rx_len {
            return Err(io::Error::new(io::ErrorKind::UnexpectedEof, "short reply"));
        }
        Ok(line.reply[..rx_len].to_vec())
    }
}

fn mock_bus() -> (Lx16aBus<MockPort>, Rc<RefCell<Line>>) {
    let line = Rc::new(RefCell::new(Line { sent: Vec::new(), reply: Vec::new(), broken: false, whole_reply: false }));
    (Lx16aBus::new(MockPort(line.clone())), line)
}

fn packet(id: u8, cmd: u8, params: &[u8]) -> Vec<u8> {
    let mut buf = [0u8; 32];
    let len = form_packet(&mut buf, id, cmd, params);
    buf[..len].to_vec()
}

fn answer(line: &Rc<RefCell<Line>>, id: u8, cmd: u8, params: &[u8]) {
    line.borrow_mut().reply = packet(id, cmd, params);
}

fn last_sent(line: &Rc<RefCell<Line>>) -> Vec<u8> {
    line.borrow().sent.last().unwrap().clone()
}

#[test]
fn servo_and_broadcast_ids() {
    let (bus, _) = mock_bus();
    assert_eq!(bus.servo(7).get_id(), 7);
    assert_eq!(bus.broadcast().get_id(), 254);
}

#[test]
fn bus_write_and_write_read() {
    let (bus, line) = mock_bus();
    line.borrow_mut().reply = vec![1, 2, 3];
    let mut rx = [0u8; 3];
    assert_eq!(bus.write_read(&[9], &mut rx).unwrap(), 3);
    assert_eq!(rx, [1, 2, 3]);
    bus.write(&[4, 5]).unwrap();
    assert_eq!(line.borrow().sent, vec![vec![9], vec![4, 5]]);
}

#[test]
fn move_commands_send_packets() {
    let (bus, line) = mock_bus();
    let servo = bus.servo(1);
    servo.move_time(500, 1000).unwrap();
    assert_eq!(last_sent(&line), vec![0x55, 0x55, 0x01, 0x07, 0x01, 0xF4, 0x01, 0xE8, 0x03, 0x16]);
    servo.move_wait(500, 1000).unwrap();
    assert_eq!(last_sent(&line), packet(1, 7, &[0xF4, 0x01, 0xE8, 0x03]));
    servo.move_start().unwrap();
    assert_eq!(last_sent(&line), packet(1, 11, &[]));
    servo.move_stop().unwrap();
    assert_eq!(last_sent(&line), packet(1, 12, &[]));
    bus.broadcast().move_stop().unwrap();
    assert_eq!(last_sent(&line), vec![0x55, 0x55, 254, 3, 12, 242]);
}

#[test]
fn read_move_time_and_wait() {
    let (bus, line) = mock_bus();
    let servo = bus.servo(3);
    answer(&line, 3, 2, &[0xF4, 0x01, 0xE8, 0x03]);
    assert_eq!(servo.read_move_time().unwrap(), (500, 1000));
    assert_eq!(last_sent(&line), packet(3, 2, &[]));
    answer(&line, 3, 8, &[0x10, 0x00, 0x20, 0x00]);
    assert_eq!(servo.read_move_wait().unwrap(), (16, 32));
}

#[test]
fn servo_id_commands() {
    let (bus, line) = mock_bus();
    let servo = bus.broadcast();
    servo.set_servo_id(5).unwrap();
    assert_eq!(last_sent(&line), packet(254, 13, &[5]));
    answer(&line, 254, 14, &[5]);
    assert_eq!(servo.read_servo_id().unwrap(), 5);
}

#[test]
fn angle_offset_commands() {
    let (bus, line) = mock_bus();
    let servo = bus.servo(2);
    servo.set_angle_offset(-125).unwrap();
    assert_eq!(last_sent(&line), packet(2, 17, &[0x83]));
    servo.set_angle_offset(125).unwrap();
    assert_eq!(last_sent(&line), packet(2, 17, &[125]));
    servo.save_angle_offset().unwrap();
    assert_eq!(last_sent(&line), packet(2, 18, &[]));
    answer(&line, 2, 19, &[0xF6]);
    assert_eq!(servo.read_angle_offset().unwrap(), 0xF6);
}

#[test]
fn angle_offset_out_of_range() {
    let (bus, line) = mock_bus();
    let servo = bus.servo(2);
    assert!(matches!(servo.set_angle_offset(-126), Err(Lx16aError::OffsetOutOfRange)));
    assert!(matches!(servo.set_angle_offset(126), Err(Lx16aError::OffsetOutOfRange)));
    assert!(matches!(servo.set_angle_offset(i8::MIN), Err(Lx16aError::OffsetOutOfRange)));
    assert!(line.borrow().sent.is_empty());
}

#[test]
fn angle_limit_commands() {
    let (bus, line) = mock_bus();
    let servo = bus.servo(4);
    servo.set_angle_limit(100, 900).unwrap();
    assert_eq!(last_sent(&line), packet(4, 20, &[100, 0, 0x84, 0x03]));
    answer(&line, 4, 21, &[100, 0, 0x84, 0x03]);
    assert_eq!(servo.read_angle_limit().unwrap(), (100, 900));
}

#[test]
fn vin_limit_commands() {
    let (bus, line) = mock_bus();
    let servo = bus.servo(4);
    servo.set_vin_limit_mv(4500, 12000).unwrap();
    assert_eq!(last_sent(&line), packet(4, 22, &[0x94, 0x11, 0xE0, 0x2E]));
    answer(&line, 4, 23, &[0x94, 0x11, 0xE0, 0x2E]);
    assert_eq!(servo.read_vin_limit_mv().unwrap(), (4500, 12000));
}

#[test]
fn vin_limit_out_of_range() {
    let (bus, line) = mock_bus();
    let servo = bus.servo(4);
    assert!(matches!(servo.set_vin_limit_mv(4499, 6000), Err(Lx16aError::VinMinimumOutOfRange)));
    assert!(matches!(servo.set_vin_limit_mv(12001, 6000), Err(Lx16aError::VinMinimumOutOfRange)));
    assert!(matches!(servo.set_vin_limit_mv(5000, 4499), Err(Lx16aError::VinMaximumOutOfRange)));
    assert!(matches!(servo.set_vin_limit_mv(5000, 12001), Err(Lx16aError::VinMaximumOutOfRange)));
    assert!(matches!(servo.set_vin_limit_mv(6000, 6000), Err(Lx16aError::VinMinimumNotBelowMaximum)));
    assert!(matches!(servo.set_vin_limit_mv(7000, 6000), Err(Lx16aError::VinMinimumNotBelowMaximum)));
    assert!(line.borrow().sent.is_empty());
}

#[test]
fn temp_limit_commands() {
    let (bus, line) = mock_bus();
    let servo = bus.servo(6);
    servo.set_temp_limit_c(50).unwrap();
    servo.set_temp_limit_c(85).unwrap();
    assert_eq!(last_sent(&line), packet(6, 24, &[85]));
    answer(&line, 6, 25, &[85]);
    assert_eq!(servo.read_temp_limit_c().unwrap(), 85);
}

#[test]
fn temp_limit_out_of_range() {
    let (bus, line) = mock_bus();
    let servo = bus.servo(6);
    assert!(matches!(servo.set_temp_limit_c(49), Err(Lx16aError::TempLimitOutOfRange)));
    assert!(matches!(servo.set_temp_limit_c(86), Err(Lx16aError::TempLimitOutOfRange)));
    assert!(line.borrow().sent.is_empty());
}

#[test]
fn readings() {
    let (bus, line) = mock_bus();
    let servo = bus.servo(1);
    answer(&line, 1, 26, &[0xFE]);
    assert_eq!(servo.read_temp_c().unwrap(), -2);
    answer(&line, 1, 27, &[0x10, 0x1E]);
    assert_eq!(servo.read_vin_mv().unwrap(), 7696);
    answer(&line, 1, 28, &[0xF4, 0x01]);
    assert_eq!(servo.read_pos().unwrap(), 500);
    assert_eq!(last_sent(&line), packet(1, 28, &[]));
}

#[test]
fn mode_commands() {
    let (bus, line) = mock_bus();
    let servo = bus.servo(1);
    servo.set_mode(Lx16aMode::Speed(-1000)).unwrap();
    assert_eq!(last_sent(&line), packet(1, 29, &[1, 0, 0x18, 0xFC]));
    servo.set_mode(Lx16aMode::Servo).unwrap();
    assert_eq!(last_sent(&line), packet(1, 29, &[0, 0, 0, 0]));
    answer(&line, 1, 30, &[1, 0, 0x18, 0xFC]);
    assert_eq!(servo.read_mode().unwrap(), Lx16aMode::Speed(-1000));
    answer(&line, 1, 30, &[0, 0, 0, 0]);
    assert_eq!(servo.read_mode().unwrap(), Lx16aMode::Servo);
    answer(&line, 1, 30, &[3, 0, 0, 0]);
    assert!(matches!(servo.read_mode(), Err(Lx16aError::InvalidMode(3))));
}

#[test]
fn powered_commands() {
    let (bus, line) = mock_bus();
    let servo = bus.servo(1);
    servo.set_powered(true).unwrap();
    assert_eq!(last_sent(&line), packet(1, 31, &[1]));
    servo.set_powered(false).unwrap();
    assert_eq!(last_sent(&line), packet(1, 31, &[0]));
    answer(&line, 1, 32, &[1]);
    assert!(servo.read_powered().unwrap());
    answer(&line, 1, 32, &[0]);
    assert!(!servo.read_powered().unwrap());
    answer(&line, 1, 32, &[2]);
    assert!(matches!(servo.read_powered(), Err(Lx16aError::InvalidPowered(2))));
}

#[test]
fn led_commands() {
    let (bus, line) = mock_bus();
    let servo = bus.servo(1);
    servo.set_led(true).unwrap();
    assert_eq!(last_sent(&line), packet(1, 33, &[0]));
    servo.set_led(false).unwrap();
    assert_eq!(last_sent(&line), packet(1, 33, &[1]));
    answer(&line, 1, 34, &[0]);
    assert!(servo.read_led().unwrap());
    answer(&line, 1, 34, &[1]);
    assert!(!servo.read_led().unwrap());
    answer(&line, 1, 34, &[5]);
    assert!(matches!(servo.read_led(), Err(Lx16aError::InvalidLed(5))));
}

#[test]
fn led_err_commands() {
    let (bus, line) = mock_bus();
    let servo = bus.servo(1);
    servo.set_led_err(true, false, true).unwrap();
    assert_eq!(last_sent(&line), packet(1, 35, &[5]));
    answer(&line, 1, 36, &[6]);
    assert_eq!(servo.read_led_err().unwrap(), (false, true, true));
}

#[test]
fn bad_responses() {
    let (bus, line) = mock_bus();
    let servo = bus.servo(1);
    // Answer from another servo.
    answer(&line, 2, 28, &[0xF4, 0x01]);
    assert!(matches!(servo.read_pos(), Err(Lx16aError::BadResponse)));
    // Answer to another command.
    answer(&line, 1, 27, &[0xF4, 0x01]);
    assert!(matches!(servo.read_pos(), Err(Lx16aError::BadResponse)));
    // Corrupted parameter.
    answer(&line, 1, 28, &[0xF4, 0x01]);
    line.borrow_mut().reply[5] = 0xF5;
    assert!(matches!(servo.read_pos(), Err(Lx16aError::Checksum)));
}

#[test]
fn port_errors_pass_through() {
    let (bus, line) = mock_bus();
    line.borrow_mut().broken = true;
    let servo = bus.servo(1);
    match servo.move_start() {
        Err(Lx16aError::Io(e)) => assert_eq!(e.kind(), io::ErrorKind::BrokenPipe),
        _ => panic!("expected a port error"),
    }
    assert!(matches!(servo.read_pos(), Err(Lx16aError::Io(_))));
    line.borrow_mut().broken = false;
    // A reply too short for the response.
    line.borrow_mut().reply = vec![0x55];
    match servo.read_pos() {
        Err(Lx16aError::Io(e)) => assert_eq!(e.kind(), io::ErrorKind::UnexpectedEof),
        _ => panic!("expected a port error"),
    }
}

#[test]
fn bus_write_read_rejects_wrong_size() {
    let (bus, line) = mock_bus();
    line.borrow_mut().whole_reply = true;
    line.borrow_mut().reply = vec![1, 2];
    let mut rx = [7u8; 3];
    match bus.write_read(&[9], &mut rx) {
        Err(e) => assert_eq!(e.kind(), io::ErrorKind::UnexpectedEof),
        Ok(_) => panic!("expected an error"),
    }
    line.borrow_mut().reply = vec![1, 2, 3, 4];
    assert!(bus.write_read(&[9], &mut rx).is_err());
    line.borrow_mut().reply = vec![4, 5, 6];
    assert_eq!(bus.write_read(&[9], &mut rx).unwrap(), 3);
    assert_eq!(rx, [4, 5, 6]);
}

#[test]
fn read_servo_id_request_and_reply() {
    let (bus, line) = mock_bus();
    let servo = bus.servo(1);
    line.borrow_mut().reply = vec![0x55, 0x55, 0x01, 0x04, 0x0E, 0x05, 0xE7];
    assert_eq!(servo.read_servo_id().unwrap(), 5);
    assert_eq!(last_sent(&line), vec![0x55, 0x55, 0x01, 0x03, 0x0E, 0xED]);
    // Wrong checksum byte.
    line.borrow_mut().reply = vec![0x55, 0x55, 0x01, 0x04, 0x0E, 0x05, 0xE8];
    assert!(matches!(servo.read_servo_id(), Err(Lx16aError::Checksum)));
    // A valid packet from servo 2.
    line.borrow_mut().reply = vec![0x55, 0x55, 0x02, 0x04, 0x0E, 0x05, 0xE6];
    assert!(matches!(servo.read_servo_id(), Err(Lx16aError::BadResponse)));
}

#[test]
fn read_mode_from_raw_reply() {
    let (bus, line) = mock_bus();
    let servo = bus.servo(1);
    line.borrow_mut().reply = vec![0x55, 0x55, 0x01, 0x07, 0x1E, 0x01, 0x00, 0x18, 0xFC, 0xC4];
    assert_eq!(servo.read_mode().unwrap(), Lx16aMode::Speed(-1000));
    assert_eq!(last_sent(&line), vec![0x55, 0x55, 0x01, 0x03, 0x1E, 0xDD]);
    line.borrow_mut().reply = vec![0x55, 0x55, 0x01, 0x07, 0x1E, 0x02, 0x00, 0x00, 0x00, 0xD7];
    assert!(matches!(servo.read_mode(), Err(Lx16aError::InvalidMode(2))));
}

#[test]
fn read_led_err_from_raw_reply() {
    let (bus, line) = mock_bus();
    let servo = bus.servo(1);
    line.borrow_mut().reply = vec![0x55, 0x55, 0x01, 0x04, 0x24, 0x06, 0xD0];
    assert_eq!(servo.read_led_err().unwrap(), (false, true, true));
    assert_eq!(last_sent(&line), vec![0x55, 0x55, 0x01, 0x03, 0x24, 0xD7]);
}

#[test]
fn settings_read_back_when_echoed() {
    let (bus, line) = mock_bus();
    let servo = bus.servo(9);
    for mode in [Lx16aMode::Servo, Lx16aMode::Speed(-1000), Lx16aMode::Speed(32767)] {
        servo.set_mode(mode).unwrap();
        let params = last_sent(&line)[5..9].to_vec();
        answer(&line, 9, 30, &params);
        assert_eq!(servo.read_mode().unwrap(), mode);
    }
    for on in [true, false] {
        servo.set_led(on).unwrap();
        let b = last_sent(&line)[5];
        answer(&line, 9, 34, &[b]);
        assert_eq!(servo.read_led().unwrap(), on);
        servo.set_powered(on).unwrap();
        let b = last_sent(&line)[5];
        answer(&line, 9, 32, &[b]);
        assert_eq!(servo.read_powered().unwrap(), on);
    }
    servo.set_led_err(true, false, true).unwrap();
    let b = last_sent(&line)[5];
    answer(&line, 9, 36, &[b]);
    assert_eq!(servo.read_led_err().unwrap(), (true, false, true));
    servo.move_wait(321, 654).unwrap();
    let params = last_sent(&line)[5..9].to_vec();
    answer(&line, 9, 8, &params);
    assert_eq!(servo.read_move_wait().unwrap(), (321, 654));
}
