use avr_tester::channel::{UartT, MAX_BYTES};
use avr_tester::duration::CpuDuration;
use avr_tester::pins::{DigitalPin, DigitalPinAsync, WaitKind};
use avr_tester::runtime::ComponentRuntime;
use avr_tester::simulator::{uart_init_flags, AvrSimulator, PinLevel, Uart as ChannelUart};
use avr_tester::uart::Uart;

fn session() -> AvrSimulator {
    AvrSimulator::new(16_000_000)
}

#[test]
fn three_steps_make_one_microsecond() {
    let mut sim = session();
    let mut total = CpuDuration::zero(16_000_000);
    for c in [4u64, 4, 8] {
        let d = sim.step(c);
        assert_eq!(d.as_cycles(), c);
        total = total.add(d);
    }
    assert_eq!(total.as_cycles(), 16);
    assert_eq!(total.as_micros(), 1);
    assert_eq!(sim.elapsed(), total);
}

#[test]
fn duration_arithmetic() {
    let a = CpuDuration::new(1_000_000, 250);
    let b = CpuDuration::new(1_000_000, 750);
    let s = a.add(b);
    assert_eq!(s.as_cycles(), 1000);
    assert_eq!(s.clock_frequency(), 1_000_000);
    assert_eq!(s.as_micros(), 1000);
    assert_eq!(CpuDuration::new(16_000_000, 15).as_micros(), 0);
    assert_eq!(CpuDuration::new(3, u64::MAX).as_micros(), (u64::MAX as u128) * 1_000_000 / 3);
}

#[test]
fn full_rx_drops_further_bytes() {
    let mut u = UartT::new();
    for i in 0..MAX_BYTES {
        u.rx_push((i % 256) as u8);
    }
    assert_eq!(u.rx_len(), 16384);
    u.rx_push(0xFF);
    assert_eq!(u.rx_len(), 16384);
    let mut last = None;
    let mut n = 0;
    while let Some(b) = u.rx_pop() {
        last = Some(b);
        n += 1;
    }
    assert_eq!(n, 16384);
    assert_eq!(last, Some(((MAX_BYTES - 1) % 256) as u8));
    assert_eq!(u.rx_pop(), None);
}

#[test]
fn xoff_holds_remaining_bytes_until_xon() {
    let mut u = ChannelUart::new(0);
    for b in [1u8, 2, 3, 4, 5] {
        u.send(b);
    }
    assert_eq!(u.flush(), Some(1));
    assert_eq!(u.flush(), Some(2));
    assert_eq!(u.flush(), Some(3));
    u.on_xoff();
    assert_eq!(u.flush(), None);
    assert_eq!(u.flush(), None);
    u.on_xon();
    assert_eq!(u.flush(), Some(4));
    assert_eq!(u.flush(), Some(5));
    assert_eq!(u.flush(), None);
}

#[test]
fn echoed_bytes_come_back_in_order() {
    let mut u = ChannelUart::new(1);
    for b in [10u8, 20, 30, 40] {
        u.send(b);
    }
    while let Some(b) = u.flush() {
        u.on_output(b as u32);
    }
    let mut got = Vec::new();
    while let Some(b) = u.recv() {
        got.push(b);
    }
    assert_eq!(got, vec![10, 20, 30, 40]);
}

#[test]
fn output_keeps_low_byte() {
    let mut u = ChannelUart::new(0);
    u.on_output(0x1234);
    assert_eq!(u.recv(), Some(0x34));
    assert_eq!(u.recv(), None);
}

#[test]
fn uart_tx_flow_flags() {
    let mut u = UartT::new();
    assert!(u.is_xon());
    u.set_xoff();
    assert!(!u.is_xon());
    u.tx_push(7);
    assert_eq!(u.tx_len(), 1);
    assert_eq!(u.tx_pop(), Some(7));
    assert_eq!(u.tx_pop(), None);
    u.set_xon();
    assert!(u.is_xon());
}

#[test]
fn wait_while_low_is_zero_when_already_high() {
    let mut sim = session();
    sim.observe_pin('D', 4, true);
    let w = DigitalPin::new(&mut sim, 'D', 4).wait_while_low();
    assert_eq!(w.poll(&sim), Some(CpuDuration::zero(16_000_000)));
}

#[test]
fn wait_while_low_counts_steps_until_high() {
    let mut sim = session();
    let mut w = DigitalPin::new(&mut sim, 'D', 4).wait_while_low();
    assert_eq!(w.poll(&sim), None);
    let d = sim.step(10);
    w.on_step(d);
    assert_eq!(w.poll(&sim), None);
    let d = sim.step(6);
    w.on_step(d);
    sim.observe_pin('D', 4, true);
    let r = w.poll(&sim).unwrap();
    assert_eq!(r.as_cycles(), 16);
    assert!(r.as_cycles() > 0);
}

#[test]
fn wait_while_high_is_zero_when_already_low() {
    let mut sim = session();
    let w = DigitalPin::new(&mut sim, 'B', 0).wait_while_high();
    assert_eq!(w.kind(), WaitKind::WhileHigh);
    assert_eq!(w.poll(&sim).map(|d| d.as_cycles()), Some(0));
}

#[test]
fn pulse_in_waits_for_a_change() {
    let mut sim = session();
    sim.observe_pin('C', 6, true);
    let mut w = DigitalPin::new(&mut sim, 'C', 6).pulse_in();
    assert_eq!(w.kind(), WaitKind::Change { initial: true });
    assert_eq!(w.poll(&sim), None);
    let d = sim.step(5);
    w.on_step(d);
    assert_eq!(w.poll(&sim), None);
    let d = sim.step(7);
    w.on_step(d);
    sim.observe_pin('C', 6, false);
    let r = w.poll(&sim).unwrap();
    assert_eq!(r.as_cycles(), 12);
    assert!(r.as_cycles() >= 7);
}

#[test]
fn pin_set_toggle_and_query() {
    let mut sim = session();
    {
        let mut p = DigitalPin::new(&mut sim, 'D', 4);
        assert!(p.is_low());
        p.set_high();
        assert!(p.is_high());
        p.toggle();
        assert!(p.is_low());
        p.toggle();
        assert!(p.is_high());
        p.set(false);
        assert!(p.is_low());
    }
    let writes = sim.take_pin_writes();
    assert_eq!(writes.len(), 4);
    assert_eq!(writes[0], PinLevel { port: 'D', pin: 4, high: true });
    assert_eq!(writes[3], PinLevel { port: 'D', pin: 4, high: false });
    assert!(sim.take_pin_writes().is_empty());
    assert!(!sim.is_pin_high('D', 4));
}

#[test]
fn pin_names_and_assertions() {
    let mut sim = session();
    let mut p = DigitalPin::new(&mut sim, 'D', 4);
    assert_eq!(p.name(), "PD4");
    assert_eq!(p.check_low(), Ok(()));
    assert_eq!(p.check_high(), Err("PD4 is not high".to_string()));
    assert_eq!(p.check_state(false), Ok(()));
    assert_eq!(p.check_state(true), Err("PD4 is not high".to_string()));
    p.assert_low();
    p.assert_state(false);
    p.set_high();
    assert_eq!(p.check_low(), Err("PD4 is not low".to_string()));
    assert_eq!(p.check_state(true), Ok(()));
    p.assert_high();
    p.assert_state(true);
    let q = DigitalPin::new(&mut sim, 'C', 16);
    assert_eq!(q.name(), "PC16");
    let r = DigitalPin::new(&mut sim, 'A', 255);
    assert_eq!(r.name(), "PA255");
}

#[test]
fn async_pin_operations() {
    let mut sim = session();
    let mut p = DigitalPinAsync::new('B', 5);
    assert_eq!(p.name(), "PB5");
    assert!(p.is_low(&sim));
    p.set_high(&mut sim);
    assert!(p.is_high(&sim));
    assert_eq!(p.check_high(&sim), Ok(()));
    assert_eq!(p.check_low(&sim), Err("PB5 is not low".to_string()));
    p.assert_high(&sim);
    p.toggle(&mut sim);
    assert!(p.is_low(&sim));
    p.set(&mut sim, true);
    p.set_low(&mut sim);
    assert_eq!(p.check_low(&sim), Ok(()));
    assert_eq!(p.check_high(&sim), Err("PB5 is not high".to_string()));
    p.assert_low(&sim);
}

#[test]
fn runtime_resumes_components_in_order() {
    let mut sim = session();
    let mut a = DigitalPinAsync::new('D', 1);
    let mut b = DigitalPinAsync::new('D', 2);
    let mut rt = ComponentRuntime::new();
    let wa = a.wait_while_low(&sim);
    let wb = b.pulse_in(&sim);
    assert_eq!(rt.spawn(&sim, wa), Ok(0));
    assert_eq!(rt.spawn(&sim, wb), Ok(1));
    let ready = b.wait_while_high(&sim);
    assert_eq!(rt.spawn(&sim, ready).unwrap_err().as_cycles(), 0);

    let d = sim.step(3);
    assert!(rt.after_step(&sim, d).is_empty());

    sim.observe_pin('D', 1, true);
    sim.observe_pin('D', 2, true);
    let d = sim.step(4);
    let done = rt.after_step(&sim, d);
    assert_eq!(done.len(), 2);
    assert_eq!(done[0].slot, 0);
    assert_eq!(done[0].elapsed.as_cycles(), 7);
    assert_eq!(done[1].slot, 1);
    assert_eq!(done[1].elapsed.as_cycles(), 7);

    let d = sim.step(1);
    assert!(rt.after_step(&sim, d).is_empty());
}

#[test]
fn session_channels_route_by_id() {
    let mut sim = session();
    assert!(sim.attach_uart(ChannelUart::new(0)));
    assert!(!sim.attach_uart(ChannelUart::new(0)));
    assert!(sim.attach_uart(ChannelUart::new(2)));
    sim.on_uart_output(0, 72);
    sim.on_uart_output(0, 105);
    sim.on_uart_output(2, 1);
    {
        let mut u = Uart::new(&mut sim, '0');
        assert_eq!(u.try_read_byte(), Some(72));
        assert_eq!(u.read(), vec![105]);
        assert_eq!(u.try_read_byte(), None);
        assert_eq!(u.read(), Vec::<u8>::new());
        u.write(&[1, 2, 3]);
        u.write_byte(4);
    }
    sim.on_uart_flow(0, false);
    assert_eq!(sim.flush_uart(0), None);
    sim.on_uart_flow(0, true);
    assert_eq!(sim.flush_uart(0), Some(1));
    assert_eq!(sim.flush_uart(0), Some(2));
    assert_eq!(sim.flush_uart(0), Some(3));
    assert_eq!(sim.flush_uart(0), Some(4));
    assert_eq!(sim.flush_uart(0), None);
    assert_eq!(sim.read_uart(2), Some(1));
    assert_eq!(sim.read_uart(1), None);
    let mut missing = Uart::new(&mut sim, '1');
    missing.write(&[9]);
    assert_eq!(missing.try_read_byte(), None);
    sim.on_uart_output(2, 76);
    sim.on_uart_output(2, 78);
    sim.on_uart_output(2, 79);
    {
        let mut u2 = Uart::new(&mut sim, '2');
        assert_eq!(u2.read_bytes(2), vec![76, 78]);
        assert_eq!(u2.read_bytes(0), Vec::<u8>::new());
        assert_eq!(u2.read_bytes(1), vec![79]);
    }
    sim.on_uart_output(2, 77);
    let mut u2 = Uart::new(&mut sim, '2');
    assert_eq!(u2.read_byte(), 77);
    assert_eq!(u2.try_read_byte(), None);
}

#[test]
fn sixteen_cycles_of_a_pin_wait_make_one_microsecond() {
    let mut sim = session();
    let mut w = DigitalPin::new(&mut sim, 'D', 7).wait_while_low();
    for c in [4u64, 4, 8] {
        assert_eq!(w.poll(&sim), None);
        let d = sim.step(c);
        w.on_step(d);
    }
    sim.observe_pin('D', 7, true);
    let r = w.poll(&sim).unwrap();
    assert_eq!(r.as_cycles(), 16);
    assert_eq!(r.as_micros(), 1);
    assert_eq!(sim.elapsed(), r);
}

#[test]
fn text_round_trip_on_a_channel() {
    let mut sim = session();
    assert!(sim.attach_uart(ChannelUart::new(0)));
    {
        let mut u = Uart::new(&mut sim, '0');
        assert_eq!(u.read_string(), "");
        u.write_str("Hello!");
    }
    let mut sent = Vec::new();
    while let Some(b) = sim.flush_uart(0) {
        sent.push(b);
        sim.on_uart_output(0, b as u32);
    }
    assert_eq!(sent, vec![72, 101, 108, 108, 111, 33]);
    sim.on_uart_output(0, 0xFF);
    let mut u = Uart::new(&mut sim, '0');
    assert_eq!(u.read_string(), "Hello!\u{FFFD}");
    assert_eq!(u.read_string(), "");
}

#[test]
fn channel_setup_flags() {
    assert_eq!(uart_init_flags(-1, 0b11, 0b10), None);
    assert_eq!(uart_init_flags(0, 0b11, 0b10), Some(0b01));
    assert_eq!(uart_init_flags(0, 0b01, 0b10), Some(0b01));
}
