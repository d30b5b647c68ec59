//! The spawner and the frame compositor, and the state they share from one
//! frame to the next.
use vstd::prelude::*;
use crate::escape::{clear_all, clear_all_seq, fg_reset, fg_reset_seq, fg_seq};
use crate::opts::{palette_index, Color, Config};
use crate::raindrop::{lemma_advanced, Raindrop, MARGIN, STAGE_COUNT};

verus! {

broadcast use lemma_advanced;

/// The smallest width and height of a screen with room for a drop inside
/// the margin.
pub const MIN_SIDE: u16 = 6;

/// `d` lies where the spawner places drops on a `width` by `height` screen:
/// at least `MARGIN` cells from the top-left edges and more than `MARGIN`
/// cells from the bottom-right ones.
pub open spec fn in_spawn_area(d: Raindrop, width: int, height: int) -> bool {
    &&& MARGIN <= d.col() < width - MARGIN - 1
    &&& MARGIN <= d.row() < height - MARGIN - 1
}

/// How many drops the spawner adds to a population of `len` drops when
/// `arrivals` come and at most `max` may be alive.
pub open spec fn spawn_count(len: nat, arrivals: nat, max: nat) -> nat {
    if len >= max {
        0
    } else if arrivals < max - len {
        arrivals
    } else {
        (max - len) as nat
    }
}

/// Relies on `rand::Rng::gen_range` on the thread's generator: a value at
/// least `low` and below `high`; it panics when `low >= high`.
#[verifier::external_body]
fn random_in(low: u16, high: u16) -> (r: u16)
    requires
        low < high,
    ensures
        low <= r < high,
{
    rand::Rng::gen_range(&mut rand::thread_rng(), low, high)
}

/// Adds `arrivals` new drops at the first stage, at random places in the
/// spawn area, stopping once `max` drops are alive.
pub fn spawn(drops: &mut Vec<Raindrop>, arrivals: u64, max: usize, width: u16, height: u16)
    requires
        width >= MIN_SIDE,
        height >= MIN_SIDE,
    ensures
        final(drops)@.len() == old(drops)@.len() + spawn_count(
            old(drops)@.len(),
            arrivals as nat,
            max as nat,
        ),
        final(drops)@.subrange(0, old(drops)@.len() as int) == old(drops)@,
        forall|i: int|
            old(drops)@.len() <= i < final(drops)@.len() ==> (#[trigger] final(drops)@[i]).stage()
                == 0 && in_spawn_area(final(drops)@[i], width as int, height as int),
{
    let ghost start = drops@;
    let mut i: u64 = 0;
    while i < arrivals && drops.len() < max
        invariant
            width >= MIN_SIDE,
            height >= MIN_SIDE,
            0 <= i <= arrivals,
            drops@.len() == start.len() + spawn_count(start.len(), i as nat, max as nat),
            drops@.subrange(0, start.len() as int) == start,
            forall|k: int|
                start.len() <= k < drops@.len() ==> (#[trigger] drops@[k]).stage() == 0
                    && in_spawn_area(drops@[k], width as int, height as int),
        decreases arrivals - i,
    {
        let x = random_in(MARGIN, width - (1 + MARGIN));
        let y = random_in(MARGIN, height - (1 + MARGIN));
        drops.push(Raindrop::new(x, y));
        i = i + 1;
        assert(drops@.subrange(0, start.len() as int) =~= start);
    }
}

/// The population one frame later: every drop advanced, the finished ones
/// left out, the order kept.
pub open spec fn survivors(pop: Seq<Raindrop>) -> Seq<Raindrop>
    decreases pop.len(),
{
    if pop.len() == 0 {
        seq![]
    } else {
        let d = pop.last().advanced();
        let rest = survivors(pop.drop_last());
        if d.finished() {
            rest
        } else {
            rest.push(d)
        }
    }
}

/// The text that draws every drop of `pop`, in order.
pub open spec fn render_all(pop: Seq<Raindrop>) -> Seq<char>
    decreases pop.len(),
{
    if pop.len() == 0 {
        seq![]
    } else {
        render_all(pop.drop_last()) + pop.last().rendering()
    }
}

/// One frame: clear the screen, set the color, draw every drop, reset the color.
pub open spec fn frame_text(pop: Seq<Raindrop>, color: Color) -> Seq<char> {
    clear_all_seq() + fg_seq(palette_index(color)) + render_all(pop) + fg_reset_seq()
}

/// Every drop of `pop` is still animating and far enough from the edges to
/// be drawn.
pub open spec fn drawable(pop: Seq<Raindrop>) -> bool {
    forall|i: int| 0 <= i < pop.len() ==> !(#[trigger] pop[i]).finished() && pop[i].inside_margin()
}

/// Draws one frame of `drops` in `color`, then advances every drop and keeps
/// those not yet finished.
pub fn compose_frame(drops: &mut Vec<Raindrop>, color: Color) -> (frame: String)
    requires
        drawable(old(drops)@),
    ensures
        frame@ == frame_text(old(drops)@, color),
        final(drops)@ == survivors(old(drops)@),
{
    let ghost pop = drops@;
    let table = Raindrop::states();
    let mut frame = clear_all();
    let fg = color.to_color_str();
    frame.append(fg.as_str());
    let mut next: Vec<Raindrop> = Vec::new();
    let n = drops.len();
    let mut i: usize = 0;
    while i < n
        invariant
            crate::raindrop::is_glyph_table(table@),
            drops@ == pop,
            n == pop.len(),
            drawable(pop),
            0 <= i <= n,
            frame@ == clear_all_seq() + fg_seq(palette_index(color)) + render_all(
                pop.take(i as int),
            ),
            next@ == survivors(pop.take(i as int)),
        decreases n - i,
    {
        let mut d = drops[i];
        d.draw_with(&table, &mut frame);
        d.increment();
        if !d.is_done() {
            next.push(d);
        }
        proof {
            assert(pop.take(i + 1).drop_last() =~= pop.take(i as int));
            assert(pop.take(i + 1).last() == pop[i as int]);
        }
        i = i + 1;
    }
    let reset = fg_reset();
    frame.append(reset.as_str());
    proof {
        assert(pop.take(n as int) =~= pop);
    }
    *drops = next;
    frame
}

/// Each drop that survives a frame is a drop of the population before it,
/// advanced and not finished; no drop is added.
pub proof fn lemma_survivors(pop: Seq<Raindrop>)
    ensures
        survivors(pop).len() <= pop.len(),
        forall|j: int|
            0 <= j < survivors(pop).len() ==> !(#[trigger] survivors(pop)[j]).finished() && exists|
                i: int,
            |
                0 <= i < pop.len() && survivors(pop)[j] == #[trigger] pop[i].advanced(),
    decreases pop.len(),
{
    if pop.len() > 0 {
        let rest = pop.drop_last();
        lemma_survivors(rest);
        assert forall|j: int| 0 <= j < survivors(pop).len() implies !(
        #[trigger] survivors(pop)[j]).finished() && exists|i: int|
            0 <= i < pop.len() && survivors(pop)[j] == #[trigger] pop[i].advanced() by {
            if j < survivors(rest).len() {
                let i = choose|i: int|
                    0 <= i < rest.len() && survivors(rest)[j] == #[trigger] rest[i].advanced();
                assert(pop[i] == rest[i]);
            } else {
                assert(pop[pop.len() - 1] == pop.last());
            }
        }
    }
}

/// The drop `d` after `k` frames.
pub open spec fn advanced_by(d: Raindrop, k: nat) -> Raindrop
    decreases k,
{
    if k == 0 {
        d
    } else {
        advanced_by(d, (k - 1) as nat).advanced()
    }
}

/// The population `pop` after `k` frames with no new drops.
pub open spec fn after_frames(pop: Seq<Raindrop>, k: nat) -> Seq<Raindrop>
    decreases k,
{
    if k == 0 {
        pop
    } else {
        survivors(after_frames(pop, (k - 1) as nat))
    }
}

/// A new drop is drawn in exactly `STAGE_COUNT` frames, at stages
/// `0, 1, ..., STAGE_COUNT - 1` in turn, and is gone after them.
pub proof fn lemma_drop_lifetime(d: Raindrop, k: nat)
    requires
        d.stage() == 0,
        k <= STAGE_COUNT,
    ensures
        k < STAGE_COUNT ==> after_frames(seq![d], k) == seq![advanced_by(d, k)]
            && advanced_by(d, k).stage() == k,
        k == STAGE_COUNT ==> after_frames(seq![d], k).len() == 0,
    decreases k,
{
    if k > 0 {
        let p = (k - 1) as nat;
        lemma_drop_lifetime(d, p);
        let prev = seq![advanced_by(d, p)];
        assert(prev.drop_last() =~= Seq::<Raindrop>::empty());
        assert(prev.last() == advanced_by(d, p));
        assert(survivors(prev.drop_last()) =~= Seq::<Raindrop>::empty());
        assert(after_frames(seq![d], k) == survivors(prev));
        assert(advanced_by(d, k) == advanced_by(d, p).advanced());
        assert(advanced_by(d, k).stage() == k);
        if k < STAGE_COUNT {
            assert(survivors(prev) =~= seq![advanced_by(d, k)]);
        } else {
            assert(survivors(prev) =~= Seq::<Raindrop>::empty());
        }
    }
}

/// The falling rain: the live drops, the settings they were made under, and
/// the size of the screen they fall on.
pub struct Rain {
    drops: Vec<Raindrop>,
    config: Config,
    width: u16,
    height: u16,
}

/// `grown` is `pop` after spawning for `arrivals` arrivals: the same drops
/// first, then the new ones, at the first stage and in the spawn area.
pub open spec fn spawned(
    pop: Seq<Raindrop>,
    grown: Seq<Raindrop>,
    arrivals: nat,
    max: nat,
    width: int,
    height: int,
) -> bool {
    &&& grown.len() == pop.len() + spawn_count(pop.len(), arrivals, max)
    &&& grown.subrange(0, pop.len() as int) == pop
    &&& forall|i: int|
        pop.len() <= i < grown.len() ==> (#[trigger] grown[i]).stage() == 0 && in_spawn_area(
            grown[i],
            width,
            height,
        )
}

impl Rain {
    /// The live drops, in the order they were spawned.
    pub closed spec fn population(&self) -> Seq<Raindrop> {
        self.drops@
    }

    /// The settings.
    pub closed spec fn config(&self) -> Config {
        self.config
    }

    /// The width of the screen, in cells.
    pub closed spec fn width(&self) -> nat {
        self.width as nat
    }

    /// The height of the screen, in cells.
    pub closed spec fn height(&self) -> nat {
        self.height as nat
    }

    /// The screen has room for drops, there are no more drops than the cap,
    /// and every drop is still animating inside the spawn area.
    pub open spec fn wf(&self) -> bool {
        &&& self.width() >= MIN_SIDE
        &&& self.height() >= MIN_SIDE
        &&& self.population().len() <= self.config().max
        &&& forall|i: int|
            0 <= i < self.population().len() ==> !(#[trigger] self.population()[i]).finished()
                && in_spawn_area(self.population()[i], self.width() as int, self.height() as int)
    }

    /// No drops yet, on a `width` by `height` screen; `None` when the screen
    /// is too small to hold a drop inside the margin.
    pub fn new(config: Config, width: u16, height: u16) -> (r: Option<Rain>)
        ensures
            r is Some <==> width >= MIN_SIDE && height >= MIN_SIDE,
            r matches Some(rain) ==> {
                &&& rain.wf()
                &&& rain.population().len() == 0
                &&& rain.config() == config
                &&& rain.width() == width
                &&& rain.height() == height
            },
    {
        if width < MIN_SIDE || height < MIN_SIDE {
            None
        } else {
            Some(Rain { drops: Vec::new(), config, width, height })
        }
    }

    /// The number of live drops.
    pub fn len(&self) -> (r: usize)
        ensures
            r == self.population().len(),
    {
        self.drops.len()
    }

    /// The settings.
    pub fn get_config(&self) -> (r: Config)
        ensures
            r == self.config(),
    {
        self.config
    }

    /// Spawns drops for `arrivals` arrivals, up to the cap.
    pub fn spawn_drops(&mut self, arrivals: u64)
        requires
            old(self).wf(),
        ensures
            final(self).wf(),
            final(self).config() == old(self).config(),
            final(self).width() == old(self).width(),
            final(self).height() == old(self).height(),
            spawned(
                old(self).population(),
                final(self).population(),
                arrivals as nat,
                old(self).config().max as nat,
                old(self).width() as int,
                old(self).height() as int,
            ),
    {
        let ghost pop = self.drops@;
        spawn(&mut self.drops, arrivals, self.config.max, self.width, self.height);
        assert forall|i: int| 0 <= i < self.drops@.len() implies !(
        #[trigger] self.drops@[i]).finished() && in_spawn_area(
            self.drops@[i],
            self.width as int,
            self.height as int,
        ) by {
            if i < pop.len() {
                assert(self.drops@[i] == self.drops@.subrange(0, pop.len() as int)[i]);
            }
        }
    }

    /// Draws one frame and moves every drop on by one stage, leaving out the
    /// finished ones.
    pub fn draw_frame(&mut self) -> (frame: String)
        requires
            old(self).wf(),
        ensures
            final(self).wf(),
            final(self).config() == old(self).config(),
            final(self).width() == old(self).width(),
            final(self).height() == old(self).height(),
            frame@ == frame_text(old(self).population(), old(self).config().color),
            final(self).population() == survivors(old(self).population()),
    {
        let ghost pop = self.drops@;
        let frame = compose_frame(&mut self.drops, self.config.color);
        proof {
            lemma_survivors(pop);
            assert forall|j: int| 0 <= j < self.drops@.len() implies !(
            #[trigger] self.drops@[j]).finished() && in_spawn_area(
                self.drops@[j],
                self.width as int,
                self.height as int,
            ) by {
                let i = choose|i: int|
                    0 <= i < pop.len() && self.drops@[j] == #[trigger] pop[i].advanced();
                assert(in_spawn_area(pop[i], self.width as int, self.height as int));
            }
        }
        frame
    }

    /// One frame: spawn for `arrivals` arrivals, then draw and advance. The
    /// population never exceeds the cap.
    pub fn tick(&mut self, arrivals: u64) -> (frame: String)
        requires
            old(self).wf(),
        ensures
            final(self).wf(),
            final(self).population().len() <= final(self).config().max,
            final(self).config() == old(self).config(),
            final(self).width() == old(self).width(),
            final(self).height() == old(self).height(),
            exists|grown: Seq<Raindrop>|
                {
                    &&& spawned(
                        old(self).population(),
                        grown,
                        arrivals as nat,
                        old(self).config().max as nat,
                        old(self).width() as int,
                        old(self).height() as int,
                    )
                    &&& frame@ == frame_text(grown, old(self).config().color)
                    &&& final(self).population() == survivors(grown)
                },
    {
        self.spawn_drops(arrivals);
        let ghost grown = self.population();
        let frame = self.draw_frame();
        frame
    }
}

} // verus!
