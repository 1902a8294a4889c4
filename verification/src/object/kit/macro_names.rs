//! The semantic names of macro parameters tell the parameters apart.

use crate::object::kit::macros::{
    spec_parameter_from_raw, spec_parameter_name, spec_try_parameter, MacroParameterModel,
    MacroParameterPage, MacroTrack,
};
use vstd::prelude::*;

verus! {

/// The characters that tell the parameter names apart: the length, the first character, the
/// last character and the third-to-last character.
pub open spec fn spec_name_signature(name: Seq<char>) -> (nat, char, char, char) {
    (name.len(), name[0], name[name.len() - 1], name[name.len() - 3])
}

/// The parameter whose name has `signature`, if any.
pub open spec fn spec_parameter_of_signature(signature: (nat, char, char, char)) -> Option<
    MacroParameterModel,
> {
    if signature == (19nat, 'm', '1', 'r') {
        Some(MacroParameterModel { page: MacroParameterPage::Machine, raw_id: 0 })
    } else if signature == (19nat, 'm', '2', 'r') {
        Some(MacroParameterModel { page: MacroParameterPage::Machine, raw_id: 1 })
    } else if signature == (19nat, 'm', '3', 'r') {
        Some(MacroParameterModel { page: MacroParameterPage::Machine, raw_id: 2 })
    } else if signature == (19nat, 'm', '4', 'r') {
        Some(MacroParameterModel { page: MacroParameterPage::Machine, raw_id: 3 })
    } else if signature == (19nat, 'm', '5', 'r') {
        Some(MacroParameterModel { page: MacroParameterPage::Machine, raw_id: 4 })
    } else if signature == (19nat, 'm', '6', 'r') {
        Some(MacroParameterModel { page: MacroParameterPage::Machine, raw_id: 5 })
    } else if signature == (19nat, 'm', '7', 'r') {
        Some(MacroParameterModel { page: MacroParameterPage::Machine, raw_id: 6 })
    } else if signature == (19nat, 'm', '8', 'r') {
        Some(MacroParameterModel { page: MacroParameterPage::Machine, raw_id: 7 })
    } else if signature == (11nat, 's', 'e', 'u') {
        Some(MacroParameterModel { page: MacroParameterPage::Sample, raw_id: 8 })
    } else if signature == (16nat, 's', 'e', 'u') {
        Some(MacroParameterModel { page: MacroParameterPage::Sample, raw_id: 9 })
    } else if signature == (13nat, 's', 'r', 'b') {
        Some(MacroParameterModel { page: MacroParameterPage::Sample, raw_id: 10 })
    } else if signature == (20nat, 's', 'n', 'i') {
        Some(MacroParameterModel { page: MacroParameterPage::Sample, raw_id: 11 })
    } else if signature == (12nat, 's', 't', 'a') {
        Some(MacroParameterModel { page: MacroParameterPage::Sample, raw_id: 12 })
    } else if signature == (10nat, 's', 'd', 'e') {
        Some(MacroParameterModel { page: MacroParameterPage::Sample, raw_id: 13 })
    } else if signature == (11nat, 's', 'p', 'o') {
        Some(MacroParameterModel { page: MacroParameterPage::Sample, raw_id: 14 })
    } else if signature == (12nat, 's', 'l', 'v') {
        Some(MacroParameterModel { page: MacroParameterPage::Sample, raw_id: 15 })
    } else if signature == (13nat, 'f', 'k', 'a') {
        Some(MacroParameterModel { page: MacroParameterPage::Filter, raw_id: 16 })
    } else if signature == (14nat, 'f', 'n', 'a') {
        Some(MacroParameterModel { page: MacroParameterPage::Filter, raw_id: 17 })
    } else if signature == (12nat, 'f', 'y', 'c') {
        Some(MacroParameterModel { page: MacroParameterPage::Filter, raw_id: 18 })
    } else if signature == (14nat, 'f', 'e', 'a') {
        Some(MacroParameterModel { page: MacroParameterPage::Filter, raw_id: 19 })
    } else if signature == (16nat, 'f', 'y', 'n') {
        Some(MacroParameterModel { page: MacroParameterPage::Filter, raw_id: 20 })
    } else if signature == (16nat, 'f', 'e', 'n') {
        Some(MacroParameterModel { page: MacroParameterPage::Filter, raw_id: 21 })
    } else if signature == (11nat, 'f', 'e', 'y') {
        Some(MacroParameterModel { page: MacroParameterPage::Filter, raw_id: 22 })
    } else if signature == (15nat, 'f', 'e', 'o') {
        Some(MacroParameterModel { page: MacroParameterPage::Filter, raw_id: 23 })
    } else if signature == (10nat, 'a', 'k', 'a') {
        Some(MacroParameterModel { page: MacroParameterPage::Amp, raw_id: 24 })
    } else if signature == (8nat, 'a', 'd', 'o') {
        Some(MacroParameterModel { page: MacroParameterPage::Amp, raw_id: 25 })
    } else if signature == (9nat, 'a', 'y', 'c') {
        Some(MacroParameterModel { page: MacroParameterPage::Amp, raw_id: 26 })
    } else if signature == (13nat, 'a', 'e', 'i') {
        Some(MacroParameterModel { page: MacroParameterPage::Amp, raw_id: 27 })
    } else if signature == (14nat, 'a', 'd', 'e') {
        Some(MacroParameterModel { page: MacroParameterPage::Amp, raw_id: 28 })
    } else if signature == (15nat, 'a', 'd', 'e') {
        Some(MacroParameterModel { page: MacroParameterPage::Amp, raw_id: 29 })
    } else if signature == (7nat, 'a', 'n', 'p') {
        Some(MacroParameterModel { page: MacroParameterPage::Amp, raw_id: 30 })
    } else if signature == (10nat, 'a', 'e', 'u') {
        Some(MacroParameterModel { page: MacroParameterPage::Amp, raw_id: 31 })
    } else if signature == (9nat, 'l', 'd', 'e') {
        Some(MacroParameterModel { page: MacroParameterPage::Lfo, raw_id: 33 })
    } else if signature == (14nat, 'l', 'r', 'i') {
        Some(MacroParameterModel { page: MacroParameterPage::Lfo, raw_id: 34 })
    } else if signature == (8nat, 'l', 'e', 'a') {
        Some(MacroParameterModel { page: MacroParameterPage::Lfo, raw_id: 35 })
    } else if signature == (15nat, 'l', 'n', 'i') {
        Some(MacroParameterModel { page: MacroParameterPage::Lfo, raw_id: 36 })
    } else if signature == (12nat, 'l', 'm', 'o') {
        Some(MacroParameterModel { page: MacroParameterPage::Lfo, raw_id: 37 })
    } else if signature == (9nat, 'l', 'e', 'a') {
        Some(MacroParameterModel { page: MacroParameterPage::Lfo, raw_id: 38 })
    } else if signature == (8nat, 'l', 'e', 'o') {
        Some(MacroParameterModel { page: MacroParameterPage::Lfo, raw_id: 39 })
    } else if signature == (9nat, 'l', 'h', 'p') {
        Some(MacroParameterModel { page: MacroParameterPage::Lfo, raw_id: 40 })
    } else if signature == (10nat, 'd', 'e', 'i') {
        Some(MacroParameterModel { page: MacroParameterPage::Delay, raw_id: 0 })
    } else if signature == (15nat, 'd', 'g', 'o') {
        Some(MacroParameterModel { page: MacroParameterPage::Delay, raw_id: 1 })
    } else if signature == (18nat, 'd', 'h', 'd') {
        Some(MacroParameterModel { page: MacroParameterPage::Delay, raw_id: 2 })
    } else if signature == (14nat, 'd', 'k', 'a') {
        Some(MacroParameterModel { page: MacroParameterPage::Delay, raw_id: 3 })
    } else if signature == (9nat, 'd', 'f', 'h') {
        Some(MacroParameterModel { page: MacroParameterPage::Delay, raw_id: 4 })
    } else if signature == (9nat, 'd', 'f', 'l') {
        Some(MacroParameterModel { page: MacroParameterPage::Delay, raw_id: 5 })
    } else if signature == (17nat, 'd', 'd', 'e') {
        Some(MacroParameterModel { page: MacroParameterPage::Delay, raw_id: 6 })
    } else if signature == (12nat, 'd', 'e', 'u') {
        Some(MacroParameterModel { page: MacroParameterPage::Delay, raw_id: 7 })
    } else if signature == (26nat, 'd', 'e', 'i') {
        Some(MacroParameterModel { page: MacroParameterPage::Distortion, raw_id: 8 })
    } else if signature == (21nat, 'd', 't', 'o') {
        Some(MacroParameterModel { page: MacroParameterPage::Distortion, raw_id: 9 })
    } else if signature == (16nat, 'r', 'y', 'l') {
        Some(MacroParameterModel { page: MacroParameterPage::Reverb, raw_id: 10 })
    } else if signature == (12nat, 'r', 'y', 'c') {
        Some(MacroParameterModel { page: MacroParameterPage::Reverb, raw_id: 11 })
    } else if signature == (25nat, 'r', 'y', 'n') {
        Some(MacroParameterModel { page: MacroParameterPage::Reverb, raw_id: 12 })
    } else if signature == (20nat, 'r', 'n', 'a') {
        Some(MacroParameterModel { page: MacroParameterPage::Reverb, raw_id: 13 })
    } else if signature == (10nat, 'r', 'f', 'h') {
        Some(MacroParameterModel { page: MacroParameterPage::Reverb, raw_id: 14 })
    } else if signature == (10nat, 'r', 'f', 'l') {
        Some(MacroParameterModel { page: MacroParameterPage::Reverb, raw_id: 15 })
    } else if signature == (13nat, 'r', 'e', 'u') {
        Some(MacroParameterModel { page: MacroParameterPage::Reverb, raw_id: 16 })
    } else if signature == (22nat, 'd', 't', 'o') {
        Some(MacroParameterModel { page: MacroParameterPage::Distortion, raw_id: 17 })
    } else if signature == (17nat, 'd', 't', 'u') {
        Some(MacroParameterModel { page: MacroParameterPage::Distortion, raw_id: 18 })
    } else if signature == (19nat, 'd', 'y', 't') {
        Some(MacroParameterModel { page: MacroParameterPage::Distortion, raw_id: 19 })
    } else if signature == (20nat, 'c', 'd', 'o') {
        Some(MacroParameterModel { page: MacroParameterPage::Compressor, raw_id: 21 })
    } else if signature == (17nat, 'c', 'k', 'a') {
        Some(MacroParameterModel { page: MacroParameterPage::Compressor, raw_id: 22 })
    } else if signature == (18nat, 'c', 'e', 'a') {
        Some(MacroParameterModel { page: MacroParameterPage::Compressor, raw_id: 23 })
    } else if signature == (16nat, 'c', 'o', 't') {
        Some(MacroParameterModel { page: MacroParameterPage::Compressor, raw_id: 24 })
    } else if signature == (23nat, 'c', 'q', '_') {
        Some(MacroParameterModel { page: MacroParameterPage::Compressor, raw_id: 25 })
    } else if signature == (22nat, 'c', 'n', 'a') {
        Some(MacroParameterModel { page: MacroParameterPage::Compressor, raw_id: 26 })
    } else if signature == (14nat, 'c', 'x', 'm') {
        Some(MacroParameterModel { page: MacroParameterPage::Compressor, raw_id: 27 })
    } else if signature == (17nat, 'c', 'e', 'u') {
        Some(MacroParameterModel { page: MacroParameterPage::Compressor, raw_id: 28 })
    } else if signature == (12nat, 'f', 'd', 'e') {
        Some(MacroParameterModel { page: MacroParameterPage::FxLfo, raw_id: 29 })
    } else if signature == (17nat, 'f', 'r', 'i') {
        Some(MacroParameterModel { page: MacroParameterPage::FxLfo, raw_id: 30 })
    } else if signature == (11nat, 'f', 'e', 'a') {
        Some(MacroParameterModel { page: MacroParameterPage::FxLfo, raw_id: 31 })
    } else if signature == (18nat, 'f', 'n', 'i') {
        Some(MacroParameterModel { page: MacroParameterPage::FxLfo, raw_id: 32 })
    } else if signature == (15nat, 'f', 'm', 'o') {
        Some(MacroParameterModel { page: MacroParameterPage::FxLfo, raw_id: 33 })
    } else if signature == (12nat, 'f', 'e', 'a') {
        Some(MacroParameterModel { page: MacroParameterPage::FxLfo, raw_id: 34 })
    } else if signature == (11nat, 'f', 'e', 'o') {
        Some(MacroParameterModel { page: MacroParameterPage::FxLfo, raw_id: 35 })
    } else if signature == (12nat, 'f', 'h', 'p') {
        Some(MacroParameterModel { page: MacroParameterPage::FxLfo, raw_id: 36 })
    } else {
        None
    }
}

/// Whether `raw_id` names a parameter of `page` on a voice track or on the FX track.
pub open spec fn spec_parameter_page_is(page: MacroParameterPage, raw_id: u8) -> bool {
    spec_parameter_from_raw(MacroTrack::Voice(0), raw_id) == Some(
        MacroParameterModel { page, raw_id },
    ) || spec_parameter_from_raw(MacroTrack::Fx, raw_id) == Some(MacroParameterModel { page, raw_id })
}

/// The signature of every Machine parameter name gives the parameter back.
proof fn lemma_machine_signatures(raw_id: u8)
    requires
        spec_parameter_page_is(MacroParameterPage::Machine, raw_id),
    ensures
        spec_parameter_of_signature(
            spec_name_signature(spec_parameter_name(MacroParameterPage::Machine, raw_id)),
        ) == Some(MacroParameterModel { page: MacroParameterPage::Machine, raw_id }),
{
    reveal_strlit("machine_parameter_1");
    reveal_strlit("machine_parameter_2");
    reveal_strlit("machine_parameter_3");
    reveal_strlit("machine_parameter_4");
    reveal_strlit("machine_parameter_5");
    reveal_strlit("machine_parameter_6");
    reveal_strlit("machine_parameter_7");
    reveal_strlit("machine_parameter_8");
}

/// The signature of every Sample parameter name gives the parameter back.
proof fn lemma_sample_signatures(raw_id: u8)
    requires
        spec_parameter_page_is(MacroParameterPage::Sample, raw_id),
    ensures
        spec_parameter_of_signature(
            spec_name_signature(spec_parameter_name(MacroParameterPage::Sample, raw_id)),
        ) == Some(MacroParameterModel { page: MacroParameterPage::Sample, raw_id }),
{
    reveal_strlit("sample_tune");
    reveal_strlit("sample_fine_tune");
    reveal_strlit("sample_number");
    reveal_strlit("sample_bit_reduction");
    reveal_strlit("sample_start");
    reveal_strlit("sample_end");
    reveal_strlit("sample_loop");
    reveal_strlit("sample_level");
}

/// The signature of every Filter parameter name gives the parameter back.
proof fn lemma_filter_signatures(raw_id: u8)
    requires
        spec_parameter_page_is(MacroParameterPage::Filter, raw_id),
    ensures
        spec_parameter_of_signature(
            spec_name_signature(spec_parameter_name(MacroParameterPage::Filter, raw_id)),
        ) == Some(MacroParameterModel { page: MacroParameterPage::Filter, raw_id }),
{
    reveal_strlit("filter_attack");
    reveal_strlit("filter_sustain");
    reveal_strlit("filter_decay");
    reveal_strlit("filter_release");
    reveal_strlit("filter_frequency");
    reveal_strlit("filter_resonance");
    reveal_strlit("filter_type");
    reveal_strlit("filter_envelope");
}

/// The signature of every Amp parameter name gives the parameter back.
proof fn lemma_amp_signatures(raw_id: u8)
    requires
        spec_parameter_page_is(MacroParameterPage::Amp, raw_id),
    ensures
        spec_parameter_of_signature(
            spec_name_signature(spec_parameter_name(MacroParameterPage::Amp, raw_id)),
        ) == Some(MacroParameterModel { page: MacroParameterPage::Amp, raw_id }),
{
    reveal_strlit("amp_attack");
    reveal_strlit("amp_hold");
    reveal_strlit("amp_decay");
    reveal_strlit("amp_overdrive");
    reveal_strlit("amp_delay_send");
    reveal_strlit("amp_reverb_send");
    reveal_strlit("amp_pan");
    reveal_strlit("amp_volume");
}

/// The signature of every Lfo parameter name gives the parameter back.
proof fn lemma_lfo_signatures(raw_id: u8)
    requires
        spec_parameter_page_is(MacroParameterPage::Lfo, raw_id),
    ensures
        spec_parameter_of_signature(
            spec_name_signature(spec_parameter_name(MacroParameterPage::Lfo, raw_id)),
        ) == Some(MacroParameterModel { page: MacroParameterPage::Lfo, raw_id }),
{
    reveal_strlit("lfo_speed");
    reveal_strlit("lfo_multiplier");
    reveal_strlit("lfo_fade");
    reveal_strlit("lfo_destination");
    reveal_strlit("lfo_waveform");
    reveal_strlit("lfo_phase");
    reveal_strlit("lfo_mode");
    reveal_strlit("lfo_depth");
}

/// The signature of every Delay parameter name gives the parameter back.
proof fn lemma_delay_signatures(raw_id: u8)
    requires
        spec_parameter_page_is(MacroParameterPage::Delay, raw_id),
    ensures
        spec_parameter_of_signature(
            spec_name_signature(spec_parameter_name(MacroParameterPage::Delay, raw_id)),
        ) == Some(MacroParameterModel { page: MacroParameterPage::Delay, raw_id }),
{
    reveal_strlit("delay_time");
    reveal_strlit("delay_ping_pong");
    reveal_strlit("delay_stereo_width");
    reveal_strlit("delay_feedback");
    reveal_strlit("delay_hpf");
    reveal_strlit("delay_lpf");
    reveal_strlit("delay_reverb_send");
    reveal_strlit("delay_volume");
}

/// The signature of every Distortion parameter name gives the parameter back.
proof fn lemma_distortion_signatures(raw_id: u8)
    requires
        spec_parameter_page_is(MacroParameterPage::Distortion, raw_id),
    ensures
        spec_parameter_of_signature(
            spec_name_signature(spec_parameter_name(MacroParameterPage::Distortion, raw_id)),
        ) == Some(MacroParameterModel { page: MacroParameterPage::Distortion, raw_id }),
{
    reveal_strlit("distortion_delay_overdrive");
    reveal_strlit("distortion_delay_post");
    reveal_strlit("distortion_reverb_post");
    reveal_strlit("distortion_amount");
    reveal_strlit("distortion_symmetry");
}

/// The signature of every Reverb parameter name gives the parameter back.
proof fn lemma_reverb_signatures(raw_id: u8)
    requires
        spec_parameter_page_is(MacroParameterPage::Reverb, raw_id),
    ensures
        spec_parameter_of_signature(
            spec_name_signature(spec_parameter_name(MacroParameterPage::Reverb, raw_id)),
        ) == Some(MacroParameterModel { page: MacroParameterPage::Reverb, raw_id }),
{
    reveal_strlit("reverb_pre_delay");
    reveal_strlit("reverb_decay");
    reveal_strlit("reverb_shelving_frequency");
    reveal_strlit("reverb_shelving_gain");
    reveal_strlit("reverb_hpf");
    reveal_strlit("reverb_lpf");
    reveal_strlit("reverb_volume");
}

/// The signature of every Compressor parameter name gives the parameter back.
proof fn lemma_compressor_signatures(raw_id: u8)
    requires
        spec_parameter_page_is(MacroParameterPage::Compressor, raw_id),
    ensures
        spec_parameter_of_signature(
            spec_name_signature(spec_parameter_name(MacroParameterPage::Compressor, raw_id)),
        ) == Some(MacroParameterModel { page: MacroParameterPage::Compressor, raw_id }),
{
    reveal_strlit("compressor_threshold");
    reveal_strlit("compressor_attack");
    reveal_strlit("compressor_release");
    reveal_strlit("compressor_ratio");
    reveal_strlit("compressor_sidechain_eq");
    reveal_strlit("compressor_makeup_gain");
    reveal_strlit("compressor_mix");
    reveal_strlit("compressor_volume");
}

/// The signature of every FxLfo parameter name gives the parameter back.
proof fn lemma_fxlfo_signatures(raw_id: u8)
    requires
        spec_parameter_page_is(MacroParameterPage::FxLfo, raw_id),
    ensures
        spec_parameter_of_signature(
            spec_name_signature(spec_parameter_name(MacroParameterPage::FxLfo, raw_id)),
        ) == Some(MacroParameterModel { page: MacroParameterPage::FxLfo, raw_id }),
{
    reveal_strlit("fx_lfo_speed");
    reveal_strlit("fx_lfo_multiplier");
    reveal_strlit("fx_lfo_fade");
    reveal_strlit("fx_lfo_destination");
    reveal_strlit("fx_lfo_waveform");
    reveal_strlit("fx_lfo_phase");
    reveal_strlit("fx_lfo_mode");
    reveal_strlit("fx_lfo_depth");
}

/// The signature of the name of a parameter that `raw_id` names for `track` gives the parameter
/// back.
proof fn lemma_name_signature_decodes(track: MacroTrack, raw_id: u8)
    requires
        spec_try_parameter(track, raw_id) is Ok,
    ensures
        spec_parameter_of_signature(
            spec_name_signature(
                spec_parameter_name(
                    spec_try_parameter(track, raw_id)->Ok_0.page,
                    spec_try_parameter(track, raw_id)->Ok_0.raw_id,
                ),
            ),
        ) == Some(spec_try_parameter(track, raw_id)->Ok_0),
{
    let parameter = spec_try_parameter(track, raw_id)->Ok_0;
    assert(spec_parameter_page_is(parameter.page, parameter.raw_id));
    match parameter.page {
        MacroParameterPage::Machine => lemma_machine_signatures(parameter.raw_id),
        MacroParameterPage::Sample => lemma_sample_signatures(parameter.raw_id),
        MacroParameterPage::Filter => lemma_filter_signatures(parameter.raw_id),
        MacroParameterPage::Amp => lemma_amp_signatures(parameter.raw_id),
        MacroParameterPage::Lfo => lemma_lfo_signatures(parameter.raw_id),
        MacroParameterPage::Delay => lemma_delay_signatures(parameter.raw_id),
        MacroParameterPage::Distortion => lemma_distortion_signatures(parameter.raw_id),
        MacroParameterPage::Reverb => lemma_reverb_signatures(parameter.raw_id),
        MacroParameterPage::Compressor => lemma_compressor_signatures(parameter.raw_id),
        MacroParameterPage::FxLfo => lemma_fxlfo_signatures(parameter.raw_id),
    }
}

/// Law: the name of a parameter that [`MacroParameter::try_from_raw`] accepts is never
/// `"unknown"`, and two accepted parameters have the same name exactly when they are the same
/// parameter.
///
/// [`MacroParameter::try_from_raw`]: crate::object::kit::macros::MacroParameter::try_from_raw
pub proof fn lemma_parameter_names_distinct(
    track_a: MacroTrack,
    raw_id_a: u8,
    track_b: MacroTrack,
    raw_id_b: u8,
)
    requires
        spec_try_parameter(track_a, raw_id_a) is Ok,
        spec_try_parameter(track_b, raw_id_b) is Ok,
    ensures
        ({
            let a = spec_try_parameter(track_a, raw_id_a)->Ok_0;
            let b = spec_try_parameter(track_b, raw_id_b)->Ok_0;
            &&& spec_parameter_name(a.page, a.raw_id) != "unknown"@
            &&& (spec_parameter_name(a.page, a.raw_id) == spec_parameter_name(b.page, b.raw_id)
                <==> a == b)
        }),
{
    lemma_name_signature_decodes(track_a, raw_id_a);
    lemma_name_signature_decodes(track_b, raw_id_b);
    reveal_strlit("unknown");
    assert(spec_parameter_of_signature(spec_name_signature("unknown"@)) is None);
}

} // verus!
