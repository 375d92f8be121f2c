use wavetable::waveform::Waveform;
use wavetable::wavetable::demo::WtDemo;
use wavetable::wavetable::Wavetable;

fn moderate(seed: u32) -> Waveform {
    let mut w = [0u32; 2048];
    let mut x: u32 = seed;
    for i in 0..2048 {
        x = x.wrapping_mul(1664525).wrapping_add(1013904223);
        w[i] = ((x >> 8) as f32 / 8388608.0 - 1.0).to_bits();
    }
    Waveform::new(w)
}

fn coarse(seed: u32) -> Waveform {
    let mut w = [0u32; 2048];
    let mut x: u32 = seed;
    for i in 0..2048 {
        x = x.wrapping_mul(1664525).wrapping_add(1013904223);
        w[i] = ((x >> 24) as f32 / 128.0 - 1.0).to_bits();
    }
    Waveform::new(w)
}

fn blend(wt: usize, first: u32, last: u32) -> f32 {
    ((255.0 - wt as f32) * f32::from_bits(first) + wt as f32 * f32::from_bits(last)) / 255.0
}

#[test]
fn empty_table_is_silent_and_untitled() {
    let wt = Wavetable::empty();
    assert_eq!(wt.name, "untitled");
    assert_eq!(wt.wavetable.len(), 256);
    for slot in wt.wavetable.iter() {
        for s in slot.waveform.iter() {
            assert_eq!(*s, 0);
        }
    }
}

#[test]
fn new_takes_slots_and_name() {
    let slots: [Waveform; 256] = std::array::from_fn(|i| moderate(i as u32));
    let wt = Wavetable::new(slots, "given".to_string());
    assert_eq!(wt.name, "given");
    for i in 0..256 {
        assert_eq!(wt.wavetable[i].waveform, moderate(i as u32).waveform);
    }
}

#[test]
fn from_fn_hands_down_position_and_phase() {
    let wt = Wavetable::from_fn(
        |position: u32| move |phase: u32| (f32::from_bits(position) + f32::from_bits(phase)).to_bits(),
        "sum".to_string(),
    );
    assert_eq!(wt.name, "sum");
    for p in 0..256 {
        for s in 0..2048 {
            let expected = p as f32 / 256.0 + s as f32 / 2048.0;
            assert_eq!(wt.wavetable[p].waveform[s], expected.to_bits());
        }
    }
}

#[test]
fn set_name_changes_only_the_name() {
    let mut wt = Wavetable::empty();
    wt.wavetable[3] = moderate(3);
    wt.set_name("fm_sin".to_string());
    assert_eq!(wt.name, "fm_sin");
    assert_eq!(wt.file_name(), "wavetable/fm_sin.wav");
    assert_eq!(wt.wavetable[3].waveform, moderate(3).waveform);
    assert_eq!(wt.wavetable[4].waveform, Waveform::empty().waveform);
}

#[test]
fn file_name_uses_the_name_as_it_is() {
    let mut wt = Wavetable::empty();
    assert_eq!(wt.file_name(), "wavetable/untitled.wav");
    wt.set_name("".to_string());
    assert_eq!(wt.file_name(), "wavetable/.wav");
    wt.set_name("a b/ç.x".to_string());
    assert_eq!(wt.file_name(), "wavetable/a b/ç.x.wav");
}

#[test]
fn normalize_works_on_each_slot_by_itself() {
    let mut wt = Wavetable::empty();
    for i in 0..256 {
        wt.wavetable[i] = moderate(100 + i as u32);
        wt.wavetable[i].scale(((i + 1) as f32 / 300.0).to_bits());
    }
    wt.wavetable[17] = Waveform::empty();
    let mut expected: Vec<Waveform> = Vec::new();
    for i in 0..256 {
        let mut w = Waveform::new(*wt.wavetable[i].waveform);
        w.normalize();
        expected.push(w);
    }
    wt.normalize();
    assert_eq!(wt.name, "untitled");
    for i in 0..256 {
        assert_eq!(wt.wavetable[i].waveform, expected[i].waveform);
        if i != 17 {
            let mut top = f32::NEG_INFINITY;
            for s in wt.wavetable[i].waveform.iter() {
                top = top.max(f32::from_bits(*s));
            }
            assert_eq!(top, 1.0);
        }
    }
    assert_eq!(wt.wavetable[17].waveform, Waveform::empty().waveform);
}

#[test]
fn morph_of_the_empty_table_is_silent() {
    let mut wt = Wavetable::empty();
    wt.morph_liner();
    for slot in wt.wavetable.iter() {
        for s in slot.waveform.iter() {
            assert_eq!(*s, 0);
            assert_eq!(f32::from_bits(*s), 0.0);
        }
    }
}

#[test]
fn morph_blends_the_two_boundary_slots() {
    let mut wt = Wavetable::empty();
    wt.wavetable[0] = moderate(1);
    wt.wavetable[255] = moderate(2);
    wt.wavetable[100] = moderate(3);
    wt.set_name("morph".to_string());
    wt.morph_liner();
    let (first, last) = (moderate(1), moderate(2));
    for i in 0..256 {
        for s in 0..2048 {
            let expected = blend(i, first.waveform[s], last.waveform[s]);
            assert_eq!(wt.wavetable[i].waveform[s], expected.to_bits(), "slot {} sample {}", i, s);
        }
    }
    assert_eq!(wt.name, "morph");
}

#[test]
fn morph_keeps_boundary_slots_of_short_fractions() {
    let mut wt = Wavetable::empty();
    wt.wavetable[0] = coarse(5);
    wt.wavetable[255] = coarse(6);
    wt.morph_liner();
    assert_eq!(wt.wavetable[0].waveform, coarse(5).waveform);
    assert_eq!(wt.wavetable[255].waveform, coarse(6).waveform);
    let (first, last) = (coarse(5), coarse(6));
    for s in 0..2048 {
        let expected = blend(85, first.waveform[s], last.waveform[s]);
        assert_eq!(wt.wavetable[85].waveform[s], expected.to_bits());
    }
}

#[test]
fn morph_chosen_values() {
    let mut first = [0u32; 2048];
    let mut last = [0u32; 2048];
    first[0] = 1.0f32.to_bits();
    last[0] = (-1.0f32).to_bits();
    first[1] = 0.5f32.to_bits();
    last[1] = 0.5f32.to_bits();
    let mut wt = Wavetable::empty();
    wt.wavetable[0] = Waveform::new(first);
    wt.wavetable[255] = Waveform::new(last);
    wt.morph_liner();
    assert_eq!(wt.wavetable[0].waveform[0], 1.0f32.to_bits());
    assert_eq!(wt.wavetable[255].waveform[0], (-1.0f32).to_bits());
    assert_eq!(wt.wavetable[51].waveform[0], ((204.0f32 - 51.0) / 255.0).to_bits());
    assert_eq!(wt.wavetable[51].waveform[0], 0.6f32.to_bits());
    assert_eq!(wt.wavetable[102].waveform[0], 0.2f32.to_bits());
    for i in 0..256 {
        assert_eq!(wt.wavetable[i].waveform[1], 0.5f32.to_bits());
        assert_eq!(wt.wavetable[i].waveform[2], 0);
    }
}

#[test]
fn morph_rounds_some_boundary_samples_away() {
    // 255 × a lies halfway between two binary32 numbers, and the tie goes to
    // the one whose 255th part is nearer to the neighbour of a.
    let a: u32 = 0x3f00_8180;
    let mut first = [0u32; 2048];
    first[0] = a;
    first[1] = 1.0e38f32.to_bits();
    first[2] = 0.25f32.to_bits();
    let mut last = [0u32; 2048];
    last[2] = f32::INFINITY.to_bits();
    let mut wt = Wavetable::empty();
    wt.wavetable[0] = Waveform::new(first);
    wt.wavetable[255] = Waveform::new(last);
    wt.morph_liner();
    assert_eq!(wt.wavetable[0].waveform[0], blend(0, a, 0).to_bits());
    assert_eq!(wt.wavetable[0].waveform[0], a - 1);
    assert_eq!(wt.wavetable[0].waveform[1], f32::INFINITY.to_bits());
    assert!(f32::from_bits(wt.wavetable[0].waveform[2]).is_nan());
    // The slots between are taken from the slots as they were, not from the
    // rewritten slot 0.
    assert_eq!(wt.wavetable[1].waveform[0], blend(1, a, 0).to_bits());
}

#[test]
fn export_concatenates_the_slots() {
    let mut wt = Wavetable::empty();
    for i in 0..256 {
        wt.wavetable[i] = moderate(200 + i as u32);
    }
    wt.set_name("all".to_string());
    let file = wt.export();
    assert_eq!(file.path, "wavetable/all.wav");
    assert_eq!(file.channels, 1);
    assert_eq!(file.sample_rate, 44100);
    assert_eq!(file.bits_per_sample, 16);
    assert_eq!(file.samples.len(), 524288);
    for k in 0..524288 {
        let s = f32::from_bits(wt.wavetable[k / 2048].waveform[k % 2048]);
        assert_eq!(file.samples[k], (s * 32767.0) as i16, "sample {}", k);
    }
}

#[test]
fn export_wraps_and_does_not_clamp() {
    let mut wt = Wavetable::empty();
    let values: [f32; 12] = [
        0.5, 1.0, -1.0, 1.5, -1.5, 2.0, 3.0, -2.00003, 1.00004, 1.0e30, f32::INFINITY, f32::NAN,
    ];
    let mut w = [0u32; 2048];
    for i in 0..12 {
        w[i] = values[i].to_bits();
    }
    wt.wavetable[2] = Waveform::new(w);
    let file = wt.export();
    let at = 2 * 2048;
    assert_eq!(
        &file.samples[at..at + 12],
        &[16383, 32767, -32767, -16386, 16386, -2, 32765, 2, -32768, 0, 0, 0]
    );
    for i in 0..9 {
        let exact = ((values[i] * 32767.0) as i64) as i16;
        assert_eq!(file.samples[at + i], exact);
    }
    assert_eq!(wt.wavetable[2].render()[3], 32767);
    assert_eq!(wt.wavetable[2].render()[4], -32768);
    assert_eq!(file.samples[0], 0);
    assert_eq!(file.samples[524287], 0);
}

#[test]
fn sine_to_fm_table_as_the_program_makes_it() {
    let mut wt = Wavetable::empty();
    let sin = Waveform::sin();
    let fm_sin = wavetable::waveform::operation::fm(&sin, 0.5f32.to_bits(), 3, &sin);
    let (first, last) = (Waveform::new(*sin.waveform), Waveform::new(*fm_sin.waveform));
    wt.wavetable[0] = sin;
    wt.wavetable[255] = fm_sin;
    wt.morph_liner();
    wt.set_name("fm_sin".to_string());
    let file = wt.export();
    assert_eq!(file.path, "wavetable/fm_sin.wav");
    assert_eq!(file.samples.len(), 256 * 2048);
    for k in [0usize, 1, 511, 512, 513, 2048, 2048 * 128 + 700, 524287] {
        let s = blend(k / 2048, first.waveform[k % 2048], last.waveform[k % 2048]);
        assert_eq!(file.samples[k], ((s * 32767.0) as i64) as i16);
    }
}

#[test]
fn demo_window_state() {
    let mut demo = WtDemo::new();
    assert_eq!(demo.pos(), 0);
    assert_eq!(demo.title(), "Wavetable Demo");
    demo.update(());
    assert_eq!(demo.pos(), 0);
    assert_eq!(demo.title(), "Wavetable Demo");
}
