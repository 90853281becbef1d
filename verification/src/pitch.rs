//! Equal temperament: the frequency of a pitch, in millihertz.
//!
//! The A of octave 4 sounds at 440 Hz, and each semitone multiplies the
//! frequency by the twelfth root of two. A frequency is rounded down to a
//! whole number of millihertz, which is stated here without roots: `r` is
//! the frequency `k` semitones above that A when
//! `r^12 <= 440000^12 * 2^k < (r + 1)^12`.

use crate::key_mapping::{Note, PitchClass};
use vstd::arithmetic::power2::{lemma2_to64, lemma2_to64_rest, lemma_pow2_adds, lemma_pow2_pos,
    pow2};
use vstd::prelude::*;

verus! {

/// The frequency of the A of octave 4.
pub const A4_MILLIHERTZ: u64 = 440_000;

/// The octaves that have a frequency run from 0 to this one.
pub const TOP_OCTAVE: i32 = 9;

/// The twelfth power.
pub open spec fn pow12(x: int) -> int {
    let square = x * x;
    let fourth = square * square;
    fourth * fourth * fourth
}

/// Whether `r` millihertz is the frequency `k` semitones above the A of
/// octave 4 (below it for negative `k`), rounded down.
pub open spec fn is_tempered(r: int, k: int) -> bool {
    let up = if k >= 0 {
        pow2(k as nat) as int
    } else {
        1
    };
    let down = if k < 0 {
        pow2((-k) as nat) as int
    } else {
        1
    };
    &&& r >= 0
    &&& pow12(r) * down <= pow12(A4_MILLIHERTZ as int) * up < pow12(r + 1) * down
}

/// The frequency in millihertz `k` semitones above the A of octave 4.
pub open spec fn tempered_frequency(k: int) -> int {
    choose|r: int| is_tempered(r, k)
}

/// The frequency of a pitch in millihertz, for the octaves 0 to 9.
pub open spec fn pitch_frequency(pitch: PitchClass) -> Option<u64> {
    if 0 <= pitch.octave <= TOP_OCTAVE {
        Some(tempered_frequency(pitch.semitones_from_a4()) as u64)
    } else {
        None
    }
}

/// The frequencies of the top octave, from C upward.
pub open spec fn top_octave_frequency(note: Note) -> int {
    match note {
        Note::C => 8372018,
        Note::CSharp => 8869844,
        Note::D => 9397272,
        Note::DSharp => 9956063,
        Note::E => 10548081,
        Note::F => 11175303,
        Note::FSharp => 11839821,
        Note::G => 12543853,
        Note::GSharp => 13289750,
        Note::A => 14080000,
        Note::ASharp => 14917240,
        Note::B => 15804265,
    }
}

/// The twelfth power keeps the order of the numbers from zero upward.
pub proof fn lemma_pow12_monotone(a: int, b: int)
    requires
        0 <= a <= b,
    ensures
        0 <= pow12(a) <= pow12(b),
{
    let a2 = a * a;
    let b2 = b * b;
    assert(0 <= a2 <= b2) by (nonlinear_arith)
        requires
            0 <= a <= b,
            a2 == a * a,
            b2 == b * b,
    ;
    let a4 = a2 * a2;
    let b4 = b2 * b2;
    assert(0 <= a4 <= b4) by (nonlinear_arith)
        requires
            0 <= a2 <= b2,
            a4 == a2 * a2,
            b4 == b2 * b2,
    ;
    let a8 = a4 * a4;
    let b8 = b4 * b4;
    assert(0 <= a8 <= b8) by (nonlinear_arith)
        requires
            0 <= a4 <= b4,
            a8 == a4 * a4,
            b8 == b4 * b4,
    ;
    assert(0 <= a8 * a4 <= b8 * b4) by (nonlinear_arith)
        requires
            0 <= a4 <= b4,
            0 <= a8 <= b8,
    ;
}

/// Doubling a number multiplies its twelfth power by 4096.
pub proof fn lemma_pow12_double(x: int)
    ensures
        pow12(2 * x) == 4096 * pow12(x),
{
    let x2 = x * x;
    let y2 = (2 * x) * (2 * x);
    assert(y2 == 4 * x2) by (nonlinear_arith)
        requires
            x2 == x * x,
            y2 == (2 * x) * (2 * x),
    ;
    let x4 = x2 * x2;
    let y4 = y2 * y2;
    assert(y4 == 16 * x4) by (nonlinear_arith)
        requires
            y2 == 4 * x2,
            x4 == x2 * x2,
            y4 == y2 * y2,
    ;
    assert(y4 * y4 * y4 == 4096 * (x4 * x4 * x4)) by (nonlinear_arith)
        requires
            y4 == 16 * x4,
    ;
}

/// Only one number of millihertz is the frequency of a semitone.
pub proof fn lemma_tempered_unique(r: int, s: int, k: int)
    requires
        is_tempered(r, k),
        is_tempered(s, k),
    ensures
        r == s,
{
    let down = if k < 0 {
        pow2((-k) as nat) as int
    } else {
        1
    };
    if k < 0 {
        lemma_pow2_pos((-k) as nat);
    }
    if r < s {
        lemma_pow12_monotone(r + 1, s);
        assert(pow12(r + 1) * down <= pow12(s) * down) by (nonlinear_arith)
            requires
                pow12(r + 1) <= pow12(s),
                down > 0,
        ;
    } else if s < r {
        lemma_pow12_monotone(s + 1, r);
        assert(pow12(s + 1) * down <= pow12(r) * down) by (nonlinear_arith)
            requires
                pow12(s + 1) <= pow12(r),
                down > 0,
        ;
    }
}

/// A number that meets the bracket of a semitone is its frequency.
pub proof fn lemma_tempered_is(r: int, k: int)
    requires
        is_tempered(r, k),
    ensures
        tempered_frequency(k) == r,
{
    lemma_tempered_unique(r, tempered_frequency(k), k);
}

/// An octave down, the frequency is half, rounded down.
pub proof fn lemma_octave_down(r: int, k: int)
    requires
        is_tempered(r, k),
        -64 <= k - 12,
        k <= 64,
    ensures
        is_tempered(r / 2, k - 12),
{
    let h = r / 2;
    let c = pow12(A4_MILLIHERTZ as int);
    lemma_pow12_monotone(2 * h, r);
    lemma_pow12_monotone(r + 1, 2 * (h + 1));
    lemma_pow12_double(h);
    lemma_pow12_double(h + 1);
    lemma_pow12_monotone(0, h);
    lemma_pow12_monotone(0, h + 1);
    lemma2_to64();
    let low = pow12(h);
    let high = pow12(h + 1);
    if k >= 12 {
        lemma_pow2_adds(12, (k - 12) as nat);
        let up = pow2((k - 12) as nat) as int;
        assert(c * (4096 * up) == 4096 * (c * up)) by (nonlinear_arith);
    } else if k < 0 {
        lemma_pow2_adds(12, (-k) as nat);
        lemma_pow2_pos((-k) as nat);
        let down = pow2((-k) as nat) as int;
        assert(low * (4096 * down) == (4096 * low) * down) by (nonlinear_arith);
        assert(high * (4096 * down) == (4096 * high) * down) by (nonlinear_arith);
        assert((4096 * low) * down <= pow12(r) * down) by (nonlinear_arith)
            requires
                4096 * low <= pow12(r),
                down > 0,
        ;
        assert(pow12(r + 1) * down <= (4096 * high) * down) by (nonlinear_arith)
            requires
                pow12(r + 1) <= 4096 * high,
                down > 0,
        ;
    } else {
        lemma_pow2_adds(k as nat, (12 - k) as nat);
        lemma_pow2_pos(k as nat);
        lemma_pow2_pos((12 - k) as nat);
        let up = pow2(k as nat) as int;
        let down = pow2((12 - k) as nat) as int;
        assert(low * down <= c && c < high * down) by (nonlinear_arith)
            requires
                up * down == 4096,
                up > 0,
                down > 0,
                4096 * low <= c * up,
                c * up < 4096 * high,
        ;
    }
}

/// The twelfth power of a number, from its square and its fourth power.
pub proof fn lemma_pow12_is(x: int, square: int, fourth: int, twelfth: int)
    requires
        square == x * x,
        fourth == square * square,
        twelfth == fourth * fourth * fourth,
    ensures
        pow12(x) == twelfth,
{
}

/// The table of the top octave holds the frequencies of its semitones.
pub proof fn lemma_top_octave(note: Note)
    ensures
        is_tempered(top_octave_frequency(note), (TOP_OCTAVE - 4) * 12 + note.semitone() - 9),
{
    lemma2_to64_rest();
    assert(193600000000int * 193600000000int == 37480960000000000000000int) by (nonlinear_arith);
    lemma_pow12_is(
        440000,
        193600000000int,
        37480960000000000000000int,
        52654090776777588736000000000000000000000000000000000000000000000000int,
    );
    match note {
        Note::C => {
            lemma_pow12_is(
                8372018,
                70090685392324,
                4912704178765740957798120976int,
                118566456570426210928267006925217220037472723047772267073560788489333139230001074176int,
            );
            lemma_pow12_is(
                8372019,
                70090702136361,
                4912706525968080449438322321int,
                118566626517315187129942535486687321961923348172961958340918452914105669154136682161int,
            );
        },
        Note::CSharp => {
            lemma_pow12_is(
                8869844,
                78674132584336,
                6189619137897679534152560896int,
                237132882242437414157221577145427204578023525539922400052522880279184926742346203136int,
            );
            lemma_pow12_is(
                8869845,
                78674150324025,
                6189621929207283012492200625int,
                237133203059393315757679263078685549226973211796246481499915370663467339297119140625int,
            );
        },
        Note::D => {
            lemma_pow12_is(
                9397272,
                88308721041984,
                7798430212070947686690656256int,
                474265539966399974205402098485695940835356895761365724936711691796405566830559625216int,
            );
            lemma_pow12_is(
                9397273,
                88308739836529,
                7798433531515763953642767841int,
                474266145587883582873061231253009723818880560843380157624557381988162244190401404321int,
            );
        },
        Note::DSharp => {
            lemma_pow12_is(
                9956063,
                99123190459969,
                9825406886963289373791480961int,
                948531226663471990284847382097886654774887299523653154120478488824817973968290743681int,
            );
            lemma_pow12_is(
                9956064,
                99123210372096,
                9825410834470800034775433216int,
                948532369924719724169016375046242381367469277143516694949213091796405113877688221696int,
            );
        },
        Note::E => {
            lemma_pow12_is(
                10548081,
                111262012782561int,
                12379235488426767357865718721int,
                1897061776484370388805872266836031401890921140379675735505500085667069981948919319361int,
            );
            lemma_pow12_is(
                10548082,
                111262033878724int,
                12379240182830327143939868176int,
                1897063934673446472875090142093799761255133661556057564688525243783882936795930955776int,
            );
        },
        Note::F => {
            lemma_pow12_is(
                11175303,
                124887397141809int,
                15596861964855922782455792481int,
                3794125444123092706438131979046566972266635292662315378413121106255237531453542020641int,
            );
            lemma_pow12_is(
                11175304,
                124887419492416int,
                15596867547474687871081517056int,
                3794129518243296618035839536914702697768873812809433632182870046346920422124464111616int,
            );
        },
        Note::FSharp => {
            lemma_pow12_is(
                11839821,
                140181361312041int,
                19650814059296985232971585681int,
                7588250143898965187403643367982256698632764725000612307107101889967002284206684376241int,
            );
            lemma_pow12_is(
                11839822,
                140181384991684int,
                19650820698186728204749155856int,
                7588257834812875693850421853050948959437432358793946654281902317573329617722341462016int,
            );
        },
        Note::G => {
            lemma_pow12_is(
                12543853,
                157348248085609int,
                24758471175610356333392900881int,
                15176494577377959626654587924951304077770356758246564198951018469592346441330654497841int,
            );
            lemma_pow12_is(
                12543854,
                157348273173316int,
                24758479070624475596574435856int,
                15176509095884735838795474654991030946913266802238420611198239169581740579341039702016int,
            );
        },
        Note::GSharp => {
            lemma_pow12_is(
                13289750,
                176617455062500int,
                31193725432754206878906250000int,
                30353007940583904319425348909497572997539824487067061166822910308837890625000000000000int,
            );
            lemma_pow12_is(
                13289751,
                176617481642001int,
                31193734821562560251127284001int,
                30353035347889988118273116275290471306344932049963372370693316795359294830707349852001int,
            );
        },
        Note::A => {
            lemma_pow12_is(
                14080000,
                198246400000000int,
                39301635112960000000000000000int,
                60706033562067921640919549693013262336000000000000000000000000000000000000000000000000int,
            );
            lemma_pow12_is(
                14080001,
                198246428160001int,
                39301646278198437478456320001int,
                60706085300184917693103442356785218595196937737555744760957423620603261724262568960001int,
            );
        },
        Note::ASharp => {
            lemma_pow12_is(
                14917240,
                222524049217600int,
                49516952480196867172149760000int,
                121412031125586883292058809546288026375665631263964152645829762374147506176000000000000int,
            );
            lemma_pow12_is(
                14917241,
                222524079052081int,
                49516965757976794119510430561int,
                121412128794117434780310657339574240772523540630033628853242816357461127761312996648481int,
            );
        },
        Note::B => {
            lemma_pow12_is(
                15804265,
                249774792190225int,
                62387446813670083652585550625int,
                242824016213051485136878537040290855648551276509368735167397232966396713253379150390625int,
            );
            lemma_pow12_is(
                15804266,
                249774823798756int,
                62387462603699606678387147536int,
                242824200586649916400222512581381211630079883301660316606407355355844152445035779526656int,
            );
        },
    }
}

/// The frequency of a note in an octave, found from the top octave down.
pub proof fn lemma_frequency_in_octave(note: Note, octave: int) -> (r: int)
    requires
        0 <= octave <= TOP_OCTAVE,
    ensures
        is_tempered(r, (octave - 4) * 12 + note.semitone() - 9),
        16_000 * pow2(octave as nat) <= r <= 15_804_265,
    decreases TOP_OCTAVE - octave,
{
    lemma2_to64();
    if octave == TOP_OCTAVE {
        lemma_top_octave(note);
        top_octave_frequency(note)
    } else {
        let above = lemma_frequency_in_octave(note, octave + 1);
        lemma_octave_down(above, (octave + 1 - 4) * 12 + note.semitone() - 9);
        lemma_pow2_adds(1, octave as nat);
        above / 2
    }
}

/// Every pitch of the octaves 0 to 9 has a frequency, which lies between
/// 16 Hz and 15.9 kHz.
pub proof fn lemma_pitch_frequency_range(pitch: PitchClass)
    ensures
        pitch_frequency(pitch) is Some <==> 0 <= pitch.octave <= TOP_OCTAVE,
        pitch_frequency(pitch) matches Some(f) ==> 16_000 <= f <= 15_804_265 && is_tempered(
            f as int,
            pitch.semitones_from_a4(),
        ),
{
    if 0 <= pitch.octave <= TOP_OCTAVE {
        let r = lemma_frequency_in_octave(pitch.note, pitch.octave as int);
        lemma_tempered_is(r, pitch.semitones_from_a4());
        lemma_pow2_pos(pitch.octave as nat);
    }
}

/// Computes the frequency of a pitch in millihertz. Pitches outside the
/// octaves 0 to 9 have none.
pub fn frequency_of_pitch(pitch: &PitchClass) -> (r: Option<u64>)
    ensures
        r == pitch_frequency(*pitch),
        r matches Some(f) ==> 16_000 <= f <= 15_804_265,
{
    if pitch.octave < 0 || pitch.octave > TOP_OCTAVE {
        return None;
    }
    let top: u64 = match pitch.note {
        Note::C => 8372018,
        Note::CSharp => 8869844,
        Note::D => 9397272,
        Note::DSharp => 9956063,
        Note::E => 10548081,
        Note::F => 11175303,
        Note::FSharp => 11839821,
        Note::G => 12543853,
        Note::GSharp => 13289750,
        Note::A => 14080000,
        Note::ASharp => 14917240,
        Note::B => 15804265,
    };
    let mut r: u64 = top;
    let mut octave: i32 = TOP_OCTAVE;
    proof {
        lemma_top_octave(pitch.note);
        lemma2_to64();
    }
    while octave > pitch.octave
        invariant
            0 <= pitch.octave <= octave <= TOP_OCTAVE,
            is_tempered(r as int, (octave - 4) * 12 + pitch.note.semitone() - 9),
            r <= 15_804_265,
            r >= 16_000 * pow2(octave as nat),
        decreases octave - pitch.octave,
    {
        proof {
            lemma_octave_down(r as int, (octave - 4) * 12 + pitch.note.semitone() - 9);
            lemma_pow2_adds(1, (octave - 1) as nat);
            lemma2_to64();
        }
        r = r / 2;
        octave = octave - 1;
    }
    proof {
        lemma_tempered_is(r as int, pitch.semitones_from_a4());
        lemma_pow2_pos(octave as nat);
    }
    Some(r)
}

} // verus!
