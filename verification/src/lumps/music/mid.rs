use std::collections::HashMap;
use vstd::prelude::*;

use crate::codec::{push_u16_be, push_u32_be, u16_be_bytes, u32_be_bytes};
use crate::error::WadError;
use crate::lumps::music::mus::{
    controller_as_midi, midi_controller, MetaEvent, Mus, MusController, MusModel, MusPlayNote,
    MusReleaseNote, MusSystemEvent,
};

verus! {

/// What every file begins with: the header chunk of a file of one track with
/// 560 ticks a quarter note, the head of the track with its length still
/// open, and the tempo.
pub open spec fn midi_preamble() -> Seq<u8> {
    seq![0x4du8, 0x54u8, 0x68u8, 0x64u8] + u32_be_bytes(6) + u16_be_bytes(0) + u16_be_bytes(1)
        + u16_be_bytes(560) + seq![0x4du8, 0x54u8, 0x72u8, 0x6bu8] + u32_be_bytes(0) + seq![
        0u8,
        0xffu8,
        0x51u8,
        3u8,
        0x0fu8,
        0x42u8,
        0x40u8,
    ]
}

/// A delay as the bytes before an event: seven bits a byte, the highest
/// first, every byte but the last marked by its top bit.
pub open spec fn delay_bytes(d: u64) -> Seq<u8> {
    (if d >= 0x200000 {
        seq![(((d & 0xfe00000) >> 21) | 0x80) as u8]
    } else {
        Seq::<u8>::empty()
    }) + (if d >= 0x4000 {
        seq![(((d & 0x1fc000) >> 14) | 0x80) as u8]
    } else {
        Seq::<u8>::empty()
    }) + (if d >= 0x80 {
        seq![(((d & 0x3f80) >> 7) | 0x80) as u8]
    } else {
        Seq::<u8>::empty()
    }) + seq![(d & 0x7f) as u8]
}

/// The MIDI channel of an event: channel 15 of a score, the percussion, is
/// channel 9 of the file.
pub open spec fn channel_of(meta: u8) -> u8 {
    if meta & 0xf == 15 {
        9u8
    } else {
        meta & 0xf
    }
}

/// The volume kept for a channel, or `default` where none is kept.
pub open spec fn volume_on(volumes: Map<u8, u8>, channel: u8, default: u8) -> u8 {
    if volumes.contains_key(channel) {
        volumes[channel]
    } else {
        default
    }
}

/// Where a transcoding stands: the place in the events, the delay before the
/// next event, the volume kept for a channel, and the file so far.
pub struct Score {
    pub at: int,
    pub delay: int,
    pub volumes: Map<u8, u8>,
    pub out: Seq<u8>,
}

/// Where a transcoding begins.
pub open spec fn score_start() -> Score {
    Score { at: 0, delay: 0, volumes: Map::empty(), out: midi_preamble() }
}

/// What an event is transcoded to: the bytes of the MIDI event, the volumes
/// kept behind it, and the number of bytes the event takes behind its first.
pub struct Event {
    pub bytes: Seq<u8>,
    pub volumes: Map<u8, u8>,
    pub used: int,
}

/// Event 0, a note is released: the note, at the volume kept for the channel
/// or at 100.
pub open spec fn release_note(events: Seq<u8>, i: int, ch: u8, volumes: Map<u8, u8>) -> Option<
    Event,
> {
    if i >= events.len() {
        None
    } else {
        Some(
            Event {
                bytes: seq![0x80 | ch, events[i] & 0x7f, volume_on(volumes, ch, 100)],
                volumes: volumes,
                used: 1,
            },
        )
    }
}

/// Event 1, a note is played. Where the event brings a volume, the note is
/// played at it, and it replaces the volume kept for the channel where one
/// is kept; else the note is played at the volume kept or at 100. The byte
/// behind the note is read in either case.
pub open spec fn play_note(events: Seq<u8>, i: int, ch: u8, volumes: Map<u8, u8>) -> Option<
    Event,
> {
    if i + 1 >= events.len() {
        None
    } else if events[i] & 0x80 != 0 {
        Some(
            Event {
                bytes: seq![0x90 | ch, events[i] & 0x7f, events[i + 1] & 0x7f],
                volumes: if volumes.contains_key(ch) {
                    volumes.insert(ch, events[i + 1] & 0x7f)
                } else {
                    volumes
                },
                used: 2,
            },
        )
    } else {
        Some(
            Event {
                bytes: seq![0x90 | ch, events[i] & 0x7f, volume_on(volumes, ch, 100)],
                volumes: volumes,
                used: 1,
            },
        )
    }
}

/// Event 2, the pitch wheel: the lowest bit of the value as the top bit of
/// the first byte, the other bits as the second.
pub open spec fn pitch_wheel(events: Seq<u8>, i: int, ch: u8, volumes: Map<u8, u8>) -> Option<
    Event,
> {
    if i >= events.len() {
        None
    } else {
        Some(
            Event {
                bytes: seq![0xe0 | ch, (events[i] << 7) & 0x80, events[i] >> 1],
                volumes: volumes,
                used: 1,
            },
        )
    }
}

/// Event 3, a controller without a value: the MIDI controller with the
/// value 0.
pub open spec fn system_event(events: Seq<u8>, i: int, ch: u8, volumes: Map<u8, u8>) -> Option<
    Event,
> {
    if i >= events.len() {
        None
    } else {
        match midi_controller(events[i] & 0x7f) {
            None => None,
            Some(c) => Some(Event { bytes: seq![0xb0 | ch, c, 0u8], volumes: volumes, used: 1 }),
        }
    }
}

/// Event 4, a controller and its value: a change of instrument for
/// controller 0, else the MIDI controller with the value. Controller 3, the
/// volume, starts the keeping of a volume for the channel, at 0 where none
/// is kept yet.
pub open spec fn controller_change(
    events: Seq<u8>,
    i: int,
    ch: u8,
    volumes: Map<u8, u8>,
) -> Option<Event> {
    if i + 1 >= events.len() {
        None
    } else {
        match midi_controller(events[i] & 0x7f) {
            None => None,
            Some(c) => Some(
                Event {
                    bytes: if events[i] & 0x7f == 0 {
                        seq![0xc0 | ch, events[i + 1] & 0x7f]
                    } else {
                        seq![0xb0 | ch, c, events[i + 1] & 0x7f]
                    },
                    volumes: if events[i] & 0x7f == 3 {
                        volumes.insert(ch, volume_on(volumes, ch, 0))
                    } else {
                        volumes
                    },
                    used: 2,
                },
            ),
        }
    }
}

/// The event of a kind whose bytes begin at `i`, transcoded. Event 6 ends
/// the score; the events 5 and 7 leave no trace. All three pass over one
/// byte.
pub open spec fn event_of(kind: u8, events: Seq<u8>, i: int, ch: u8, volumes: Map<u8, u8>)
    -> Option<Event> {
    if kind == 0 {
        release_note(events, i, ch, volumes)
    } else if kind == 1 {
        play_note(events, i, ch, volumes)
    } else if kind == 2 {
        pitch_wheel(events, i, ch, volumes)
    } else if kind == 3 {
        system_event(events, i, ch, volumes)
    } else if kind == 4 {
        controller_change(events, i, ch, volumes)
    } else if kind == 6 {
        Some(Event { bytes: seq![0xffu8, 0x2fu8, 0x80u8], volumes: volumes, used: 1 })
    } else {
        Some(Event { bytes: Seq::empty(), volumes: volumes, used: 1 })
    }
}

/// The event at `s.at` transcoded: the delay before it and the event itself
/// are appended, and the place moves behind the event. Nothing where the
/// event is cut short or names a controller that MIDI does not have, or the
/// delay is beyond 64 bits.
pub open spec fn event_step(events: Seq<u8>, s: Score) -> Option<Score>
    recommends
        0 <= s.at < events.len(),
{
    if s.delay * 4 > u64::MAX {
        None
    } else {
        match event_of(
            (events[s.at] & 0x70) >> 4,
            events,
            s.at + 1,
            channel_of(events[s.at]),
            s.volumes,
        ) {
            None => None,
            Some(e) => Some(
                Score {
                    at: s.at + 1 + e.used,
                    delay: s.delay,
                    volumes: e.volumes,
                    out: s.out + delay_bytes((s.delay * 4) as u64) + e.bytes,
                },
            ),
        }
    }
}

/// The delay that is written from `at` on, seven bits a byte, the last byte
/// the first without its top bit; with it, the place behind it. Nothing
/// where the events end before the delay does, or the delay is beyond 64
/// bits.
pub open spec fn read_delay(events: Seq<u8>, at: int, sum: int) -> Option<(int, int)>
    decreases events.len() - at,
{
    if at < 0 || at >= events.len() {
        None
    } else {
        let next = sum * 128 + (events[at] & 0x7f);
        if next > u64::MAX {
            None
        } else if events[at] & 0x80 == 0x80 {
            read_delay(events, at + 1, next)
        } else {
            Some((next, at + 1))
        }
    }
}

/// One round of a transcoding: the event, then the delay that follows it
/// where the event announces one.
pub open spec fn score_step(events: Seq<u8>, s: Score) -> Option<Score>
    recommends
        0 <= s.at < events.len(),
{
    match event_step(events, s) {
        None => None,
        Some(n) => if events[s.at] & 0x80 != 0 {
            match read_delay(events, n.at, 0) {
                None => None,
                Some((delay, next)) => Some(Score { at: next, delay: delay, ..n }),
            }
        } else {
            Some(Score { delay: 0, ..n })
        },
    }
}

/// The file with the length of its track, what follows the first 22 bytes,
/// written into bytes 18 to 21.
pub open spec fn with_track_length(out: Seq<u8>) -> Seq<u8> {
    out.subrange(0, 18) + u32_be_bytes(out.len() - 22) + out.subrange(22, out.len() as int)
}

/// The file that a transcoding ends with when it goes on from `s`: events
/// are transcoded as long as the place is before `song_len`.
pub open spec fn transcode_from(events: Seq<u8>, song_len: int, s: Score) -> Option<Seq<u8>>
    decreases
        if s.at < song_len {
            song_len - s.at
        } else {
            0
        },
{
    if s.at >= song_len {
        Some(with_track_length(s.out))
    } else if s.at < 0 || s.at >= events.len() {
        None
    } else {
        match score_step(events, s) {
            None => None,
            Some(n) => if n.at > s.at {
                transcode_from(events, song_len, n)
            } else {
                None
            },
        }
    }
}

/// The MIDI file of a score, where the score is well formed.
pub open spec fn midi_of(mus: MusModel) -> Option<Seq<u8>> {
    transcode_from(mus.event_buffer, mus.header.song_len as int, score_start())
}

/// A MIDI file.
pub struct Midi {
    /// The bytes of the file.
    buffer: Vec<u8>,
}

impl View for Midi {
    type V = Seq<u8>;

    closed spec fn view(&self) -> Seq<u8> {
        self.buffer@
    }
}

impl Default for Midi {
    fn default() -> (r: Self)
        ensures
            r@ == Seq::<u8>::empty(),
    {
        Midi { buffer: Vec::new() }
    }
}

impl Clone for Midi {
    fn clone(&self) -> (r: Self)
        ensures
            r@ == self@,
    {
        Midi { buffer: self.buffer.clone() }
    }
}

/// Appends the delay `d` to `out`.
fn push_delay(out: &mut Vec<u8>, d: u64)
    ensures
        final(out)@ == old(out)@ + delay_bytes(d),
{
    if d >= 0x200000 {
        assert(((d & 0xfe00000) >> 21) | 0x80 <= 255) by (bit_vector);
        out.push((((d & 0xfe00000) >> 21) | 0x80) as u8);
    }
    if d >= 0x4000 {
        assert(((d & 0x1fc000) >> 14) | 0x80 <= 255) by (bit_vector);
        out.push((((d & 0x1fc000) >> 14) | 0x80) as u8);
    }
    if d >= 0x80 {
        assert(((d & 0x3f80) >> 7) | 0x80 <= 255) by (bit_vector);
        out.push((((d & 0x3f80) >> 7) | 0x80) as u8);
    }
    assert(d & 0x7f <= 255) by (bit_vector);
    out.push((d & 0x7f) as u8);
    assert(out@ =~= old(out)@ + delay_bytes(d));
}

/// A delay takes four bytes at most.
proof fn lemma_delay_len(d: u64)
    ensures
        1 <= delay_bytes(d).len() <= 4,
{
}

/// Appends event 0. Gives the number of bytes the event takes.
fn push_release_note(
    events: &Vec<u8>,
    i: usize,
    channel: u8,
    volumes: &HashMap<u8, u8>,
    out: &mut Vec<u8>,
) -> (r: Option<usize>)
    ensures
        r is Some <==> release_note(events@, i as int, channel, volumes@) is Some,
        r matches Some(used) ==> ({
            let e = release_note(events@, i as int, channel, volumes@)->0;
            used == e.used && final(out)@ == old(out)@ + e.bytes
        }),
        r is None ==> final(out)@ == old(out)@,
{
    broadcast use vstd::std_specs::hash::group_hash_axioms;

    if i >= events.len() {
        return None;
    }
    let event = MusReleaseNote(events[i]);
    let volume: u8 = match volumes.get(&channel) {
        Some(v) => *v,
        None => 100,
    };
    out.push(0x80 | channel);
    out.push(event.note());
    out.push(volume);
    assert(out@ =~= old(out)@ + seq![0x80 | channel, events@[i as int] & 0x7f, volume]);
    Some(1)
}

/// Appends event 1. Gives the number of bytes the event takes.
fn push_play_note(
    events: &Vec<u8>,
    i: usize,
    channel: u8,
    volumes: &mut HashMap<u8, u8>,
    out: &mut Vec<u8>,
) -> (r: Option<usize>)
    ensures
        r is Some <==> play_note(events@, i as int, channel, old(volumes)@) is Some,
        r matches Some(used) ==> ({
            let e = play_note(events@, i as int, channel, old(volumes)@)->0;
            used == e.used && final(out)@ == old(out)@ + e.bytes && final(volumes)@ == e.volumes
        }),
        r is None ==> final(out)@ == old(out)@,
{
    broadcast use vstd::std_specs::hash::group_hash_axioms;

    if events.len() < 2 || i >= events.len() - 1 {
        return None;
    }
    let event = MusPlayNote(events[i], events[i + 1]);
    let volume: u8 = if event.is_volume() {
        if volumes.contains_key(&channel) {
            volumes.insert(channel, event.volume());
        }
        event.volume()
    } else {
        match volumes.get(&channel) {
            Some(v) => *v,
            None => 100,
        }
    };
    out.push(0x90 | channel);
    out.push(event.note());
    out.push(volume);
    assert(out@ =~= old(out)@ + seq![0x90 | channel, events@[i as int] & 0x7f, volume]);
    if event.is_volume() {
        Some(2)
    } else {
        Some(1)
    }
}

/// Appends event 2. Gives the number of bytes the event takes.
fn push_pitch_wheel(events: &Vec<u8>, i: usize, channel: u8, volumes: &HashMap<u8, u8>, out: &mut Vec<
    u8,
>) -> (r: Option<usize>)
    ensures
        r is Some <==> pitch_wheel(events@, i as int, channel, volumes@) is Some,
        r matches Some(used) ==> ({
            let e = pitch_wheel(events@, i as int, channel, volumes@)->0;
            used == e.used && final(out)@ == old(out)@ + e.bytes
        }),
        r is None ==> final(out)@ == old(out)@,
{
    if i >= events.len() {
        return None;
    }
    let b = events[i];
    out.push(0xe0 | channel);
    out.push((b << 7) & 0x80);
    out.push(b >> 1);
    assert(out@ =~= old(out)@ + seq![0xe0 | channel, (b << 7) & 0x80, b >> 1]);
    Some(1)
}

/// Appends event 3. Gives the number of bytes the event takes.
fn push_system_event(
    events: &Vec<u8>,
    i: usize,
    channel: u8,
    volumes: &HashMap<u8, u8>,
    out: &mut Vec<u8>,
) -> (r: Option<usize>)
    ensures
        r is Some <==> system_event(events@, i as int, channel, volumes@) is Some,
        r matches Some(used) ==> ({
            let e = system_event(events@, i as int, channel, volumes@)->0;
            used == e.used && final(out)@ == old(out)@ + e.bytes
        }),
        r is None ==> final(out)@ == old(out)@,
{
    if i >= events.len() {
        return None;
    }
    let event = MusSystemEvent(events[i]);
    let controller = match controller_as_midi(event.controller()) {
        Ok(c) => c,
        Err(_) => {
            return None;
        },
    };
    out.push(0xb0 | channel);
    out.push(controller);
    out.push(0);
    assert(out@ =~= old(out)@ + seq![0xb0 | channel, controller, 0u8]);
    Some(1)
}

/// Appends event 4. Gives the number of bytes the event takes.
fn push_controller_change(
    events: &Vec<u8>,
    i: usize,
    channel: u8,
    volumes: &mut HashMap<u8, u8>,
    out: &mut Vec<u8>,
) -> (r: Option<usize>)
    ensures
        r is Some <==> controller_change(events@, i as int, channel, old(volumes)@) is Some,
        r matches Some(used) ==> ({
            let e = controller_change(events@, i as int, channel, old(volumes)@)->0;
            used == e.used && final(out)@ == old(out)@ + e.bytes && final(volumes)@ == e.volumes
        }),
        r is None ==> final(out)@ == old(out)@,
{
    broadcast use vstd::std_specs::hash::group_hash_axioms;

    if events.len() < 2 || i >= events.len() - 1 {
        return None;
    }
    let event = MusController(events[i], events[i + 1]);
    let controller = match controller_as_midi(event.controller()) {
        Ok(c) => c,
        Err(_) => {
            return None;
        },
    };
    if event.controller() == 0 {
        out.push(0xc0 | channel);
        out.push(event.value());
        assert(out@ =~= old(out)@ + seq![0xc0 | channel, events@[i + 1] & 0x7f]);
    } else {
        out.push(0xb0 | channel);
        out.push(controller);
        out.push(event.value());
        assert(out@ =~= old(out)@ + seq![0xb0 | channel, controller, events@[i + 1] & 0x7f]);
    }
    if event.controller() == 3 {
        let volume: u8 = match volumes.get(&channel) {
            Some(v) => *v,
            None => 0,
        };
        volumes.insert(channel, volume);
    }
    Some(2)
}

/// Appends the event of a kind. Gives the number of bytes the event takes.
fn push_event(
    kind: u8,
    events: &Vec<u8>,
    i: usize,
    channel: u8,
    volumes: &mut HashMap<u8, u8>,
    out: &mut Vec<u8>,
) -> (r: Option<usize>)
    ensures
        final(out)@.len() <= old(out)@.len() + 3,
        r is Some <==> event_of(kind, events@, i as int, channel, old(volumes)@) is Some,
        r matches Some(used) ==> ({
            let e = event_of(kind, events@, i as int, channel, old(volumes)@)->0;
            &&& 1 <= used <= 2
            &&& used == e.used
            &&& final(out)@ == old(out)@ + e.bytes
            &&& final(volumes)@ == e.volumes
        }),
{
    if kind == 0 {
        push_release_note(events, i, channel, volumes, out)
    } else if kind == 1 {
        push_play_note(events, i, channel, volumes, out)
    } else if kind == 2 {
        push_pitch_wheel(events, i, channel, volumes, out)
    } else if kind == 3 {
        push_system_event(events, i, channel, volumes, out)
    } else if kind == 4 {
        push_controller_change(events, i, channel, volumes, out)
    } else if kind == 6 {
        out.push(0xff);
        out.push(0x2f);
        out.push(0x80);
        assert(out@ =~= old(out)@ + seq![0xffu8, 0x2fu8, 0x80u8]);
        Some(1)
    } else {
        assert(out@ =~= old(out)@ + Seq::<u8>::empty());
        Some(1)
    }
}

/// Transcodes the event at `at`. Gives the place behind it.
fn transcode_event(
    events: &Vec<u8>,
    at: usize,
    delay: u64,
    volumes: &mut HashMap<u8, u8>,
    out: &mut Vec<u8>,
) -> (r: Option<usize>)
    requires
        at < events.len(),
        at < u16::MAX,
    ensures
        final(out)@.len() <= old(out)@.len() + 7,
        r is Some <==> event_step(
            events@,
            Score { at: at as int, delay: delay as int, volumes: old(volumes)@, out: old(out)@ },
        ) is Some,
        r matches Some(next) ==> at + 2 <= next && Some(
            Score { at: next as int, delay: delay as int, volumes: final(volumes)@, out: final(out)@ },
        ) == event_step(
            events@,
            Score { at: at as int, delay: delay as int, volumes: old(volumes)@, out: old(out)@ },
        ),
{
    let meta = MetaEvent(events[at]);
    let kind = meta.event_type();
    let channel: u8 = if meta.channel() == 15 {
        9
    } else {
        meta.channel()
    };
    if delay > u64::MAX / 4 {
        return None;
    }
    push_delay(out, delay * 4);
    proof {
        lemma_delay_len((delay * 4) as u64);
    }
    let ghost delayed = out@;
    match push_event(kind, events, at + 1, channel, volumes, out) {
        Some(used) => {
            assert(out@ =~= old(out)@ + delay_bytes((delay * 4) as u64) + (out@.subrange(
                delayed.len() as int,
                out@.len() as int,
            )));
            Some(at + 1 + used)
        },
        None => None,
    }
}

/// Reads the delay that is written from `at` on.
fn next_delay(events: &Vec<u8>, at: usize) -> (r: Option<(u64, usize)>)
    ensures
        r is Some <==> read_delay(events@, at as int, 0) is Some,
        r matches Some((delay, next)) ==> next > at && read_delay(events@, at as int, 0) == Some(
            (delay as int, next as int),
        ),
{
    let mut sum: u64 = 0;
    let mut i: usize = at;
    loop
        invariant
            at <= i,
            read_delay(events@, at as int, 0) == read_delay(events@, i as int, sum as int),
        decreases events@.len() - i,
    {
        if i >= events.len() {
            return None;
        }
        let byte = events[i];
        let low = (byte & 0x7f) as u64;
        assert(byte & 0x7f <= 127) by (bit_vector);
        if sum > (u64::MAX - low) / 128 {
            assert(sum * 128 + low > u64::MAX);
            return None;
        }
        sum = sum * 128 + low;
        i += 1;
        if byte & 0x80 != 0x80 {
            return Some((sum, i));
        }
    }
}

impl Midi {
    /// The file with nothing in it.
    pub fn new() -> (r: Self)
        ensures
            r@ == Seq::<u8>::empty(),
    {
        Self::default()
    }

    /// Appends what every file begins with.
    fn write_metadata(&mut self)
        ensures
            final(self)@ == old(self)@ + midi_preamble(),
    {
        self.buffer.push(0x4d);
        self.buffer.push(0x54);
        self.buffer.push(0x68);
        self.buffer.push(0x64);
        push_u32_be(&mut self.buffer, 6);
        push_u16_be(&mut self.buffer, 0);
        push_u16_be(&mut self.buffer, 1);
        push_u16_be(&mut self.buffer, 560);
        self.buffer.push(0x4d);
        self.buffer.push(0x54);
        self.buffer.push(0x72);
        self.buffer.push(0x6b);
        push_u32_be(&mut self.buffer, 0);
        self.buffer.push(0);
        self.buffer.push(0xff);
        self.buffer.push(0x51);
        self.buffer.push(3);
        self.buffer.push(0x0f);
        self.buffer.push(0x42);
        self.buffer.push(0x40);
        assert(self.buffer@ =~= old(self).buffer@ + midi_preamble());
    }

    /// The bytes of the file.
    pub fn buffer(&self) -> (r: &Vec<u8>)
        ensures
            r@ == self@,
    {
        &self.buffer
    }

    /// The bytes of the file, to be changed.
    pub fn buffer_mut(&mut self) -> (r: &mut Vec<u8>)
        ensures
            r@ == old(self)@,
            final(self)@ == final(r)@,
    {
        &mut self.buffer
    }

    /// Empties the file.
    pub fn reset(&mut self)
        ensures
            final(self)@ == Seq::<u8>::empty(),
    {
        self.buffer.clear()
    }

    /// The MIDI file of a score. Fails where the score is malformed: an event
    /// is cut short, a delay runs to the end of the score or beyond 64 bits,
    /// or a controller has no MIDI counterpart.
    pub fn try_from(value: &Mus) -> (r: Result<Self, WadError>)
        ensures
            r is Ok <==> midi_of(value@) is Some,
            r matches Ok(midi) ==> Some(midi@) == midi_of(value@),
            r matches Err(e) ==> e == WadError::InvalidLumpName,
    {
        broadcast use vstd::std_specs::hash::group_hash_axioms;

        let mut midi = Midi::new();
        midi.write_metadata();
        assert(midi.buffer@ =~= midi_preamble());
        let mut out = midi.buffer;
        let events = value.event_buffer();
        let song_len = value.header().song_len as usize;
        let mut volumes: HashMap<u8, u8> = HashMap::new();
        assert(volumes@ =~= score_start().volumes);
        let mut delay: u64 = 0;
        let mut i: usize = 0;
        let ghost mut rounds: int = 0;
        while i < song_len
            invariant
                song_len == value@.header.song_len,
                events@ == value@.event_buffer,
                0 <= rounds <= i,
                rounds <= song_len,
                29 <= out@.len() <= 29 + 7 * rounds,
                midi_of(value@) == transcode_from(
                    events@,
                    song_len as int,
                    Score { at: i as int, delay: delay as int, volumes: volumes@, out: out@ },
                ),
            decreases
                if i < song_len {
                    song_len - i
                } else {
                    0
                },
        {
            if i >= events.len() {
                return Err(WadError::InvalidLumpName);
            }
            let last = MetaEvent(events[i]).last();
            let next = match transcode_event(events, i, delay, &mut volumes, &mut out) {
                Some(next) => next,
                None => {
                    return Err(WadError::InvalidLumpName);
                },
            };
            if last {
                match next_delay(events, next) {
                    Some((d, behind)) => {
                        delay = d;
                        i = behind;
                    },
                    None => {
                        return Err(WadError::InvalidLumpName);
                    },
                }
            } else {
                delay = 0;
                i = next;
            }
            proof {
                rounds = rounds + 1;
            }
        }
        let ghost done = out@;
        let track: u32 = (out.len() - 22) as u32;
        let mut size: Vec<u8> = Vec::new();
        push_u32_be(&mut size, track);
        let mut k: usize = 0;
        while k < 4
            invariant
                k <= 4,
                size@ == u32_be_bytes(done.len() - 22),
                out@.len() == done.len(),
                done.len() >= 29,
                forall|j: int| 0 <= j < out@.len() && !(18 <= j < 18 + k) ==> out@[j] == done[j],
                forall|j: int| 18 <= j < 18 + k ==> out@[j] == size@[j - 18],
            decreases 4 - k,
        {
            out.set(18 + k, size[k]);
            k += 1;
        }
        assert(out@ =~= with_track_length(done));
        Ok(Midi { buffer: out })
    }
}

} // verus!
