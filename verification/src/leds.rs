//! Layout of the keyboard on an addressable LED strip. A white key is two
//! LEDs wide, a black key one; the keys follow each other without gaps
//! after a few unused LEDs at the head of the strip.
use crate::display::{Rgb, DARK};
use crate::piano::{colour_of_key, key_colour, KeyColour};
use vstd::prelude::*;

verus! {

/// Number of LEDs on the strip.
pub const NUM_LEDS: usize = 144;

/// Index of the first LED in use: the ones before it stay dark.
pub const FIRST_LED: usize = 2;

/// Number of LEDs that show the key with the given 0-based index.
pub open spec fn led_width(key: nat) -> nat {
    if colour_of_key(key as int) == KeyColour::White {
        2
    } else {
        1
    }
}

/// Index of the first LED of a key: the keys below it lie before it.
pub open spec fn led_start(key: nat) -> nat
    decreases key,
{
    if key == 0 {
        FIRST_LED as nat
    } else {
        led_start((key - 1) as nat) + led_width((key - 1) as nat)
    }
}

/// Whether `led` is one of the LEDs that show `key`.
pub open spec fn shows(led: int, key: nat) -> bool {
    led_start(key) <= led < led_start(key) + led_width(key)
}

/// Keys lie on the strip in order: a higher key starts where the keys
/// below it end.
pub proof fn lemma_led_start_grows(low: nat, high: nat)
    requires
        low <= high,
    ensures
        led_start(low) + (high - low) <= led_start(high),
    decreases high - low,
{
    if low < high {
        lemma_led_start_grows(low, (high - 1) as nat);
    }
}

/// No LED shows two keys.
pub proof fn lemma_led_shows_one_key(led: int, a: nat, b: nat)
    requires
        shows(led, a),
        shows(led, b),
    ensures
        a == b,
{
    if a < b {
        lemma_led_start_grows(a + 1, b);
    } else if b < a {
        lemma_led_start_grows(b + 1, a);
    }
}

/// Every LED from the first in use up to the end of the last of `keys`
/// keys shows one of them.
pub proof fn lemma_led_cover(led: int, keys: nat)
    requires
        FIRST_LED <= led < led_start(keys),
    ensures
        exists|key: nat| key < keys && shows(led, key),
    decreases keys,
{
    if keys > 0 {
        let top = (keys - 1) as nat;
        if led >= led_start(top) {
            assert(shows(led, top));
        } else {
            lemma_led_cover(led, top);
            let key = choose|key: nat| key < top && shows(led, key);
            assert(key < keys && shows(led, key));
        }
    }
}

/// The LEDs of twelve keys in a row, wherever the row starts: seven white
/// keys and five black ones make nineteen.
proof fn lemma_twelve_widths(key: nat)
    ensures
        led_width(key) + led_width(key + 1) + led_width(key + 2) + led_width(key + 3)
            + led_width(key + 4) + led_width(key + 5) + led_width(key + 6) + led_width(key + 7)
            + led_width(key + 8) + led_width(key + 9) + led_width(key + 10) + led_width(key + 11)
            == 19,
{
}

/// Twelve keys in a row, wherever they start, take nineteen LEDs.
pub proof fn lemma_octave_width(key: nat)
    ensures
        led_start(key + 12) == led_start(key) + 19,
{
    lemma_twelve_widths(key);
    assert(led_start(key + 1) == led_start(key) + led_width(key));
    assert(led_start(key + 2) == led_start(key + 1) + led_width(key + 1));
    assert(led_start(key + 3) == led_start(key + 2) + led_width(key + 2));
    assert(led_start(key + 4) == led_start(key + 3) + led_width(key + 3));
    assert(led_start(key + 5) == led_start(key + 4) + led_width(key + 4));
    assert(led_start(key + 6) == led_start(key + 5) + led_width(key + 5));
    assert(led_start(key + 7) == led_start(key + 6) + led_width(key + 6));
    assert(led_start(key + 8) == led_start(key + 7) + led_width(key + 7));
    assert(led_start(key + 9) == led_start(key + 8) + led_width(key + 8));
    assert(led_start(key + 10) == led_start(key + 9) + led_width(key + 9));
    assert(led_start(key + 11) == led_start(key + 10) + led_width(key + 10));
    assert(led_start(key + 12) == led_start(key + 11) + led_width(key + 11));
}

/// The 88 keys of a piano end at LED 142: they fit a strip of 144.
pub proof fn lemma_piano_fits()
    ensures
        led_start(88) == 142,
        led_start(88) <= NUM_LEDS,
{
    reveal_with_fuel(led_start, 5);
    lemma_octave_width(0);
    lemma_octave_width(12);
    lemma_octave_width(24);
    lemma_octave_width(36);
    lemma_octave_width(48);
    lemma_octave_width(60);
    lemma_octave_width(72);
}

/// The colours of the strip, one per LED, as they are to be transmitted.
pub struct LEDs {
    data: Vec<Rgb>,
}

impl View for LEDs {
    type V = Seq<Rgb>;

    /// The colour of every LED, in strip order.
    closed spec fn view(&self) -> Seq<Rgb> {
        self.data@
    }
}

impl LEDs {
    #[verifier::type_invariant]
    spec fn inv(self) -> bool {
        self.data@.len() == NUM_LEDS
    }

    /// A strip with every LED dark.
    pub fn new() -> (leds: LEDs)
        ensures
            leds@.len() == NUM_LEDS,
            forall|led: int| 0 <= led < NUM_LEDS ==> leds@[led] == DARK,
    {
        let mut data: Vec<Rgb> = Vec::with_capacity(NUM_LEDS);
        let mut led: usize = 0;
        while led < NUM_LEDS
            invariant
                led <= NUM_LEDS,
                data@.len() == led,
                forall|i: int| 0 <= i < led ==> data@[i] == DARK,
            decreases NUM_LEDS - led,
        {
            data.push(DARK);
            led += 1;
        }
        LEDs { data }
    }

    /// The colours in strip order.
    pub fn data(&self) -> (data: &[Rgb])
        ensures
            data@ == self@,
            data@.len() == NUM_LEDS,
    {
        proof {
            use_type_invariant(self);
        }
        self.data.as_slice()
    }

    /// Turns every LED dark.
    pub fn reset(&mut self)
        ensures
            final(self)@.len() == NUM_LEDS,
            forall|led: int| 0 <= led < NUM_LEDS ==> final(self)@[led] == DARK,
    {
        proof {
            use_type_invariant(&*self);
        }
        let mut led: usize = 0;
        while led < NUM_LEDS
            invariant
                led <= NUM_LEDS,
                self.data@.len() == NUM_LEDS,
                forall|i: int| 0 <= i < led ==> self.data@[i] == DARK,
            decreases NUM_LEDS - led,
        {
            self.data[led] = DARK;
            led += 1;
        }
    }

    /// Shows one colour per key: key `k` lights its LEDs with `colours[k]`.
    /// LEDs that show none of the keys keep their colour. Keys, or halves
    /// of keys, that would lie beyond the end of the strip are cut off.
    pub fn paint(&mut self, colours: &[Rgb])
        ensures
            final(self)@.len() == NUM_LEDS,
            forall|led: int, key: nat|
                0 <= led < NUM_LEDS && key < colours@.len() && shows(led, key) ==> final(self)@[led]
                    == colours@[key as int],
            forall|led: int|
                0 <= led < NUM_LEDS && !(exists|key: nat| key < colours@.len() && shows(led, key))
                    ==> final(self)@[led] == old(self)@[led],
    {
        proof {
            use_type_invariant(&*self);
        }
        let mut key: usize = 0;
        let mut led: usize = FIRST_LED;
        while key < colours.len() && led < NUM_LEDS
            invariant
                key <= colours.len(),
                led == led_start(key as nat) || (led >= NUM_LEDS && led_start(key as nat) >= NUM_LEDS),
                led <= NUM_LEDS + 1,
                self.data@.len() == NUM_LEDS,
                forall|l: int, k: nat|
                    0 <= l < NUM_LEDS && k < key && shows(l, k) ==> self.data@[l] == colours@[k as int],
                forall|l: int|
                    0 <= l < NUM_LEDS && !(exists|k: nat| k < key && shows(l, k)) ==> self.data@[l]
                        == old(self)@[l],
            decreases colours.len() - key,
        {
            let colour = colours[key];
            let width: usize = match key_colour(key) {
                KeyColour::White => 2,
                KeyColour::Black => 1,
            };
            self.data[led] = colour;
            if width == 2 && led + 1 < NUM_LEDS {
                self.data[led + 1] = colour;
            }
            proof {
                let this = key as nat;
                assert forall|l: int, k: nat|
                    0 <= l < NUM_LEDS && k < key + 1 && shows(l, k) implies self.data@[l]
                    == colours@[k as int] by {
                    if k < this {
                        if shows(l, this) {
                            lemma_led_shows_one_key(l, k, this);
                        }
                    }
                }
                assert forall|l: int|
                    0 <= l < NUM_LEDS && !(exists|k: nat| k < key + 1 && shows(l, k)) implies self.data@[l]
                    == old(self)@[l] by {
                    assert(!shows(l, this));
                    if exists|k: nat| k < key && shows(l, k) {
                        let k = choose|k: nat| k < key && shows(l, k);
                        assert(k < key + 1 && shows(l, k));
                    }
                }
            }
            led += width;
            key += 1;
        }
        proof {
            let keys = colours@.len();
            assert forall|l: int, k: nat|
                0 <= l < NUM_LEDS && k < keys && shows(l, k) implies self.data@[l] == colours@[k as int] by {
                if k >= key {
                    lemma_led_start_grows(key as nat, k);
                }
            }
            assert forall|l: int|
                0 <= l < NUM_LEDS && !(exists|k: nat| k < keys && shows(l, k)) implies self.data@[l]
                == old(self)@[l] by {
                if exists|k: nat| k < key && shows(l, k) {
                    let k = choose|k: nat| k < key && shows(l, k);
                    assert(k < keys && shows(l, k));
                }
            }
        }
    }
}

} // verus!
