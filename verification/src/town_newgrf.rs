//! The town variables a NewGRF sees in the parent scope of an `Action2`
//! (`TownScopeResolver`): every word-sized value is exposed as a low word
//! and a high byte, capped at 16 bits.

use vstd::prelude::*;
use crate::town::Town;

verus! {

/// One month of a town's history.
#[derive(Debug, Clone, Copy, PartialEq, Eq, Structural)]
pub struct TownHistorySample {
    pub population: u32,
    pub passengers_served: u32,
    pub mail_served: u32,
    pub rating: i16,
}

impl Default for TownHistorySample {
    fn default() -> (r: TownHistorySample)
        ensures
            r == (TownHistorySample { population: 0, passengers_served: 0, mail_served: 0, rating: 0 }),
    {
        TownHistorySample { population: 0, passengers_served: 0, mail_served: 0, rating: 0 }
    }
}

pub open spec fn zero_sample() -> TownHistorySample {
    TownHistorySample { population: 0, passengers_served: 0, mail_served: 0, rating: 0 }
}

/// `v` capped to 16 bits.
pub open spec fn cap16(v: u32) -> u32 {
    if v > 0xFFFF { 0xFFFF } else { v }
}

/// Variable `var` holds the (capped) value and `var + 1` its high byte.
pub open spec fn word_pair(var: u8, v: u32) -> Seq<(u8, u32)> {
    seq![(var, cap16(v)), ((var + 1) as u8, cap16(v) / 256)]
}

/// Squared zone radii from variable `0x94` on, two variables each.
pub open spec fn radius_vars(radii: Seq<u32>, k: int) -> Seq<(u8, u32)>
    decreases k,
{
    if k <= 0 {
        Seq::empty()
    } else {
        radius_vars(radii, k - 1) + word_pair((0x94 + 2 * (k - 1)) as u8, radii[k - 1])
    }
}

/// The first eight company ratings from variable `0x9E` on, as 16-bit
/// two's complement words.
pub open spec fn rating_vars(ratings: Seq<i16>, k: int) -> Seq<(u8, u32)>
    decreases k,
{
    if k <= 0 {
        Seq::empty()
    } else {
        rating_vars(ratings, k - 1) + word_pair((0x9E + 2 * (k - 1)) as u8, (ratings[k - 1] as u16) as u32)
    }
}

/// The town's behaviour flags: the imported byte with its three low bits
/// recomputed from growing, church and stadium.
pub open spec fn town_flags(t: Town) -> u8 {
    (t.native_flags & 0xF8) | (if t.is_growing { 1u8 } else { 0u8 }) | (if t.has_church { 2u8 } else { 0u8 })
        | (if t.has_stadium { 4u8 } else { 0u8 })
}

/// Latest and previous history samples (zero when missing).
pub open spec fn latest_sample(h: Seq<TownHistorySample>) -> TownHistorySample {
    if h.len() >= 1 { h[h.len() - 1] } else { zero_sample() }
}

pub open spec fn previous_sample(h: Seq<TownHistorySample>) -> TownHistorySample {
    if h.len() >= 2 { h[h.len() - 2] } else { zero_sample() }
}

/// Identity, position, population, growth counter and flags.
pub open spec fn head_vars(t: Town) -> Seq<(u8, u32)> {
    let pop = cap16(t.population);
    seq![
        (0x40u8, if t.larger_town { 1u32 } else { 0u32 }),
        (0x41u8, t.id),
        (0x80u8, t.pos.x as u32),
        (0x81u8, t.pos.y as u32),
        (0x82u8, pop),
        (0x83u8, pop / 256),
        (0x8Au8, (t.grow_counter / 70) as u32),
        (0x92u8, town_flags(t) as u32),
        (0x93u8, 0u32),
    ]
}

/// Statues, houses and growth rate.
pub open spec fn count_vars(t: Town) -> Seq<(u8, u32)> {
    seq![(0xB2u8, t.statues as u32), (0xB6u8, t.num_houses as u32), (0xB9u8, (t.growth_rate / 70) as u32)]
}

/// Passengers and mail served this month and last month.
pub open spec fn history_vars(history: Seq<TownHistorySample>) -> Seq<(u8, u32)> {
    let cur = latest_sample(history);
    let prev = previous_sample(history);
    word_pair(0xBA, cur.passengers_served) + word_pair(0xBC, cur.mail_served) + word_pair(
        0xBE,
        cur.passengers_served,
    ) + word_pair(0xC0, cur.mail_served) + word_pair(0xC2, prev.passengers_served) + word_pair(
        0xC4,
        prev.mail_served,
    ) + word_pair(0xC6, prev.passengers_served) + word_pair(0xC8, prev.mail_served)
}

/// Food and water received this month and last month.
pub open spec fn received_vars(t: Town) -> Seq<(u8, u32)> {
    word_pair(0xCC, t.received_new[3]) + word_pair(0xCE, t.received_new[4]) + word_pair(
        0xD0,
        t.received_old[3],
    ) + word_pair(0xD2, t.received_old[4])
}

/// Every parent-scope variable of `t`, in the order they are set.
pub open spec fn parent_scope_vars(t: Town, history: Seq<TownHistorySample>) -> Seq<(u8, u32)> {
    let n_ratings = if t.authority_ratings@.len() > 8 { 8 } else { t.authority_ratings@.len() as int };
    head_vars(t) + radius_vars(t.squared_town_zone_radius@, 5) + seq![(0xAEu8, t.have_ratings as u32)]
        + rating_vars(t.authority_ratings@, n_ratings) + count_vars(t) + history_vars(history)
        + received_vars(t) + seq![(0xD4u8, t.road_build_months as u32), (0xD5u8, t.fund_buildings_months as u32)]
}

fn push_word_pair(out: &mut Vec<(u8, u32)>, var: u8, v: u32)
    requires
        var < 0xFF,
    ensures
        final(out)@ == old(out)@ + word_pair(var, v),
{
    let c: u32 = if v > 0xFFFF { 0xFFFF } else { v };
    let lo = c & 0xFFFF;
    let hi = c >> 8;
    assert(c <= 0xFFFF ==> (c & 0xFFFF) == c && (c >> 8) == c / 256) by (bit_vector);
    out.push((var, lo));
    out.push((var + 1, hi));
    assert(out@ =~= old(out)@ + word_pair(var, v));
}

fn push_head_vars(t: &Town, out: &mut Vec<(u8, u32)>)
    ensures
        final(out)@ == old(out)@ + head_vars(*t),
{
    let population: u32 = if t.population > 0xFFFF { 0xFFFF } else { t.population };
    let flags: u8 = (t.native_flags & 0xF8) | (if t.is_growing { 1u8 } else { 0u8 }) | (if t.has_church {
        2u8
    } else {
        0u8
    }) | (if t.has_stadium { 4u8 } else { 0u8 });
    assert(population <= 0xFFFF ==> (population & 0xFFFF) == population && (population >> 8) == population / 256)
        by (bit_vector);
    out.push((0x40, if t.larger_town { 1 } else { 0 }));
    out.push((0x41, t.id));
    out.push((0x80, t.pos.x as u32));
    out.push((0x81, t.pos.y as u32));
    out.push((0x82, population & 0xFFFF));
    out.push((0x83, population >> 8));
    out.push((0x8A, (t.grow_counter / 70) as u32));
    out.push((0x92, flags as u32));
    out.push((0x93, 0));
    assert(out@ =~= old(out)@ + head_vars(*t));
}

fn push_radius_vars(t: &Town, out: &mut Vec<(u8, u32)>)
    ensures
        final(out)@ == old(out)@ + radius_vars(t.squared_town_zone_radius@, 5),
{
    let ghost head = out@;
    let mut i: usize = 0;
    while i < 5
        invariant
            i <= 5,
            t.squared_town_zone_radius@.len() == 5,
            out@ == head + radius_vars(t.squared_town_zone_radius@, i as int),
        decreases 5 - i,
    {
        push_word_pair(out, 0x94 + 2 * (i as u8), t.squared_town_zone_radius[i]);
        proof {
            assert(head + radius_vars(t.squared_town_zone_radius@, i + 1) =~= head + radius_vars(
                t.squared_town_zone_radius@,
                i as int,
            ) + word_pair((0x94 + 2 * i) as u8, t.squared_town_zone_radius@[i as int]));
        }
        i = i + 1;
    }
}

fn push_rating_vars(t: &Town, out: &mut Vec<(u8, u32)>)
    ensures
        final(out)@ == old(out)@ + rating_vars(
            t.authority_ratings@,
            if t.authority_ratings@.len() > 8 { 8 } else { t.authority_ratings@.len() as int },
        ),
{
    let n_ratings: usize = if t.authority_ratings.len() > 8 { 8 } else { t.authority_ratings.len() };
    let ghost head = out@;
    let mut k: usize = 0;
    while k < n_ratings
        invariant
            k <= n_ratings,
            n_ratings <= 8,
            n_ratings <= t.authority_ratings@.len(),
            out@ == head + rating_vars(t.authority_ratings@, k as int),
        decreases n_ratings - k,
    {
        let rating = t.authority_ratings[k];
        push_word_pair(out, 0x9E + 2 * (k as u8), (rating as u16) as u32);
        proof {
            assert(head + rating_vars(t.authority_ratings@, k + 1) =~= head + rating_vars(
                t.authority_ratings@,
                k as int,
            ) + word_pair((0x9E + 2 * k) as u8, (t.authority_ratings@[k as int] as u16) as u32));
        }
        k = k + 1;
    }
}

fn push_history_vars(history: &Vec<TownHistorySample>, out: &mut Vec<(u8, u32)>)
    ensures
        final(out)@ == old(out)@ + history_vars(history@),
{
    let n = history.len();
    let cur = if n >= 1 { history[n - 1] } else { TownHistorySample::default() };
    let prev = if n >= 2 { history[n - 2] } else { TownHistorySample::default() };
    push_word_pair(out, 0xBA, cur.passengers_served);
    push_word_pair(out, 0xBC, cur.mail_served);
    push_word_pair(out, 0xBE, cur.passengers_served);
    push_word_pair(out, 0xC0, cur.mail_served);
    push_word_pair(out, 0xC2, prev.passengers_served);
    push_word_pair(out, 0xC4, prev.mail_served);
    push_word_pair(out, 0xC6, prev.passengers_served);
    push_word_pair(out, 0xC8, prev.mail_served);
    assert(out@ =~= old(out)@ + history_vars(history@));
}

fn push_received_vars(t: &Town, out: &mut Vec<(u8, u32)>)
    ensures
        final(out)@ == old(out)@ + received_vars(*t),
{
    push_word_pair(out, 0xCC, t.received_new[3]);
    push_word_pair(out, 0xCE, t.received_new[4]);
    push_word_pair(out, 0xD0, t.received_old[3]);
    push_word_pair(out, 0xD2, t.received_old[4]);
    assert(out@ =~= old(out)@ + received_vars(*t));
}

/// The persistent registers a town keeps for the NewGRF `grfid`: those of
/// its first store with that id, none when it has no such store.
pub open spec fn registers_for_grf(stores: Seq<(u32, Seq<(u8, u32)>)>, grfid: u32, k: int) -> Seq<(u8, u32)>
    decreases k,
{
    if k <= 0 {
        seq![]
    } else if stores[stores.len() - k].0 == grfid {
        stores[stores.len() - k].1
    } else {
        registers_for_grf(stores, grfid, k - 1)
    }
}

pub open spec fn stores_view(stores: Seq<(u32, Vec<(u8, u32)>)>) -> Seq<(u32, Seq<(u8, u32)>)> {
    stores.map_values(|p: (u32, Vec<(u8, u32)>)| (p.0, p.1@))
}

fn copy_registers(regs: &Vec<(u8, u32)>) -> (r: Vec<(u8, u32)>)
    ensures
        r@ == regs@,
{
    let mut r: Vec<(u8, u32)> = Vec::new();
    let mut k: usize = 0;
    while k < regs.len()
        invariant
            k <= regs@.len(),
            r@ == regs@.subrange(0, k as int),
        decreases regs@.len() - k,
    {
        r.push(regs[k]);
        k = k + 1;
        assert(r@ =~= regs@.subrange(0, k as int));
    }
    assert(regs@.subrange(0, regs@.len() as int) =~= regs@);
    r
}

impl Town {
    /// The variables this town exposes to NewGRF code in a parent scope,
    /// as (variable, value) pairs, and the persistent registers it keeps
    /// for the NewGRF `grfid` (from `persistent`, its stores keyed by
    /// GRF id); `history` is the town's monthly history, oldest first.
    pub fn copy_newgrf_parent_scope(
        &self,
        history: &Vec<TownHistorySample>,
        grfid: u32,
        persistent: &Vec<(u32, Vec<(u8, u32)>)>,
    ) -> (r: (Vec<(u8, u32)>, Vec<(u8, u32)>))
        ensures
            r.0@ == parent_scope_vars(*self, history@),
            r.1@ == registers_for_grf(stores_view(persistent@), grfid, persistent@.len() as int),
    {
        let mut out: Vec<(u8, u32)> = Vec::new();
        push_head_vars(self, &mut out);
        push_radius_vars(self, &mut out);
        out.push((0xAE, self.have_ratings as u32));
        push_rating_vars(self, &mut out);
        out.push((0xB2, self.statues as u32));
        out.push((0xB6, self.num_houses as u32));
        out.push((0xB9, (self.growth_rate / 70) as u32));
        push_history_vars(history, &mut out);
        push_received_vars(self, &mut out);
        out.push((0xD4, self.road_build_months as u32));
        out.push((0xD5, self.fund_buildings_months as u32));
        assert(out@ =~= parent_scope_vars(*self, history@));
        let ghost sv = stores_view(persistent@);
        let mut regs: Vec<(u8, u32)> = Vec::new();
        let mut k: usize = 0;
        while k < persistent.len()
            invariant
                k <= persistent@.len(),
                sv == stores_view(persistent@),
                out@ == parent_scope_vars(*self, history@),
                regs@.len() == 0,
                registers_for_grf(sv, grfid, persistent@.len() as int) == registers_for_grf(sv, grfid, (persistent@.len() - k) as int),
            decreases persistent@.len() - k,
        {
            assert(sv[k as int] == (persistent@[k as int].0, persistent@[k as int].1@));
            if persistent[k].0 == grfid {
                regs = copy_registers(&persistent[k].1);
                return (out, regs);
            }
            k = k + 1;
        }
        (out, regs)
    }
}

} // verus!
