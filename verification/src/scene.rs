//! Keeping a client's picture of the world in step with the snapshots: which
//! of the entities it shows are gone, which are new, which only moved, and
//! what is to be shown of each. Whatever a snapshot holds is shown with the
//! snapshot's values, whether the client has seen it before or not.

use vstd::prelude::*;
use crate::game_world::{GameWorld, WorldState, lists};
use crate::scalar::Scalar;
use crate::player::Player;
use crate::bullet::Bullet;
use crate::asteroid::Asteroid;

verus! {

/// What a snapshot asks for one entity: to show it for the first time, or to
/// move what is shown already.
#[derive(Clone, Copy, Debug, PartialEq, Eq, Structural)]
pub struct SyncStep {
    pub id: u32,
    pub create: bool,
}

/// What a snapshot asks of a client for one class of entities: the ids to
/// take away, and a step for every entity of the snapshot, in its order.
#[derive(Clone, Debug, PartialEq, Eq)]
pub struct SyncPlan {
    pub remove: Vec<u32>,
    pub steps: Vec<SyncStep>,
}

/// What is shown of a player: where it stands, which way it heads and how
/// many hit points it has.
#[derive(Clone, Copy, Debug, PartialEq, Eq, Structural)]
pub struct PlayerLook {
    pub x: Scalar,
    pub y: Scalar,
    pub rotation: Scalar,
    pub hp: u16,
}

/// What is shown of a bullet or an asteroid: where it stands.
#[derive(Clone, Copy, Debug, PartialEq, Eq, Structural)]
pub struct Place {
    pub x: Scalar,
    pub y: Scalar,
}

/// What a snapshot asks of a client: a plan for the players, of which none is
/// ever taken away, one for the bullets and one for the asteroids, and for
/// every step of each plan, at the same place in the list beside it, what is
/// to be shown.
#[derive(Clone, Debug, PartialEq, Eq)]
pub struct ScenePlan {
    pub players: SyncPlan,
    pub player_looks: Vec<PlayerLook>,
    pub bullets: SyncPlan,
    pub bullet_places: Vec<Place>,
    pub asteroids: SyncPlan,
    pub asteroid_places: Vec<Place>,
}

impl PlayerLook {
    /// What a snapshot shows of the player `p`.
    pub open spec fn of(p: Player) -> PlayerLook {
        PlayerLook { x: p.x, y: p.y, rotation: p.rotation, hp: p.hp }
    }

    /// What a snapshot shows of the player `p`.
    pub fn from_player(p: &Player) -> (look: PlayerLook)
        ensures
            look == PlayerLook::of(*p),
    {
        PlayerLook { x: p.x, y: p.y, rotation: p.rotation, hp: p.hp }
    }
}

impl Place {
    /// Where a snapshot shows the bullet `b`.
    pub open spec fn of_bullet(b: Bullet) -> Place {
        Place { x: b.x, y: b.y }
    }

    /// Where a snapshot shows the asteroid `a`.
    pub open spec fn of_asteroid(a: Asteroid) -> Place {
        Place { x: a.x, y: a.y }
    }
}

/// `plan` is what the snapshot `w` asks of a client that shows the players,
/// bullets and asteroids with the given ids, with the players of the snapshot
/// taken in the order `order`. Every entity of the snapshot has a step, and
/// beside it the values of the snapshot: a player's place, heading and hit
/// points, a bullet's and an asteroid's place. That holds of what is shown
/// for the first time as of what was shown before.
pub open spec fn shows(
    plan: ScenePlan,
    players: Seq<u32>,
    bullets: Seq<u32>,
    asteroids: Seq<u32>,
    w: WorldState,
    order: Seq<u32>,
) -> bool {
    &&& lists(order, w.players.dom())
    &&& is_plan(plan.players, players, order, false)
    &&& plan.player_looks@ == Seq::new(order.len(), |k: int| PlayerLook::of(w.players[order[k]]))
    &&& is_plan(plan.bullets, bullets, Seq::new(w.bullets.len(), |i: int| w.bullets[i].id), true)
    &&& plan.bullet_places@ == Seq::new(w.bullets.len(), |i: int| Place::of_bullet(w.bullets[i]))
    &&& is_plan(
        plan.asteroids,
        asteroids,
        Seq::new(w.asteroids.len(), |i: int| w.asteroids[i].id),
        true,
    )
    &&& plan.asteroid_places@ == Seq::new(
        w.asteroids.len(),
        |i: int| Place::of_asteroid(w.asteroids[i]),
    )
}

/// Every player of a snapshot is shown with the snapshot's place, heading and
/// hit points: it has a step in the plan, and beside that step stands what
/// the snapshot holds of it.
pub proof fn lemma_every_player_is_shown(
    plan: ScenePlan,
    players: Seq<u32>,
    bullets: Seq<u32>,
    asteroids: Seq<u32>,
    w: WorldState,
    order: Seq<u32>,
    id: u32,
)
    requires
        shows(plan, players, bullets, asteroids, w, order),
        w.players.contains_key(id),
    ensures
        exists|k: int|
            0 <= k < plan.players.steps@.len() && (#[trigger] plan.players.steps@[k]).id == id
                && plan.player_looks@[k] == PlayerLook::of(w.players[id]),
{
    assert(order.to_set().contains(id));
    let k = choose|k: int| 0 <= k < order.len() && order[k] == id;
    assert(plan.players.steps@[k].id == id);
}

/// The ids among the first `n` of `known` that `present` does not hold, in
/// their order.
pub open spec fn gone(known: Seq<u32>, present: Seq<u32>, n: int) -> Seq<u32>
    decreases n,
{
    if n <= 0 {
        Seq::empty()
    } else if present.contains(known[n - 1]) {
        gone(known, present, n - 1)
    } else {
        gone(known, present, n - 1).push(known[n - 1])
    }
}

/// The entity at place `i` of the snapshot is shown for the first time: the
/// client does not know its id, and the snapshot has not named it before.
pub open spec fn is_new(known: Seq<u32>, present: Seq<u32>, i: int) -> bool {
    !known.contains(present[i]) && !present.take(i).contains(present[i])
}

/// What a snapshot with the ids `present` asks of a client that shows the
/// ids `known`. Where `prune` is not set nothing is taken away.
pub open spec fn is_plan(plan: SyncPlan, known: Seq<u32>, present: Seq<u32>, prune: bool) -> bool {
    &&& plan.remove@ == (if prune {
        gone(known, present, known.len() as int)
    } else {
        Seq::empty()
    })
    &&& plan.steps@.len() == present.len()
    &&& forall|i: int|
        0 <= i < present.len() ==> (#[trigger] plan.steps@[i]).id == present[i] && plan.steps@[i].create
            == is_new(known, present, i)
}

/// What is taken away is what the client knows and the snapshot does not
/// hold, no more and no less.
pub proof fn lemma_gone(known: Seq<u32>, present: Seq<u32>, n: int, id: u32)
    requires
        0 <= n <= known.len(),
    ensures
        gone(known, present, n).contains(id) <==> known.take(n).contains(id) && !present.contains(id),
    decreases n,
{
    if n > 0 {
        lemma_gone(known, present, n - 1, id);
        let before = gone(known, present, n - 1);
        let now = gone(known, present, n);
        let last = known[n - 1];
        assert(known.take(n).last() == last);
        if !present.contains(last) {
            assert(now[now.len() - 1] == last);
            if before.contains(id) {
                let at = choose|at: int| 0 <= at < before.len() && before[at] == id;
                assert(now[at] == id);
            }
        }
    }
}

/// Every id of the snapshot is shown afterwards: the client knew it, or the
/// place where the snapshot names it first is a step that creates it. And no
/// id is created at two places.
pub proof fn lemma_steps_cover_snapshot(known: Seq<u32>, present: Seq<u32>, at: int)
    requires
        0 <= at < present.len(),
    ensures
        known.contains(present[at]) || exists|i: int|
            0 <= i <= at && present[i] == present[at] && #[trigger] is_new(known, present, i),
        forall|i: int|
            0 <= i < at && present[i] == present[at] ==> !#[trigger] is_new(known, present, at),
    decreases at,
{
    assert forall|i: int| 0 <= i < at && present[i] == present[at] implies !#[trigger] is_new(
        known,
        present,
        at,
    ) by {
        assert(present.take(at)[i] == present[at]);
    }
    if !known.contains(present[at]) {
        if present.take(at).contains(present[at]) {
            let part = present.take(at);
            let earlier = choose|e: int| 0 <= e < part.len() && part[e] == present[at];
            lemma_steps_cover_snapshot(known, present, earlier);
        } else {
            assert(is_new(known, present, at));
        }
    }
}

/// Whether `id` stands among the first `upto` of `list`.
pub fn holds(list: &Vec<u32>, upto: usize, id: u32) -> (found: bool)
    requires
        upto <= list@.len(),
    ensures
        found == list@.take(upto as int).contains(id),
{
    let mut i: usize = 0;
    while i < upto
        invariant
            i <= upto <= list@.len(),
            forall|j: int| 0 <= j < i ==> list@[j] != id,
        decreases upto - i,
    {
        if list[i] == id {
            assert(list@.take(upto as int)[i as int] == id);
            return true;
        }
        i += 1;
    }
    false
}

/// What a snapshot with the ids `present` asks of a client that shows the
/// ids `known`. With `prune` set, what the snapshot does not hold is taken
/// away; without it nothing is.
pub fn plan_sync(known: &Vec<u32>, present: &Vec<u32>, prune: bool) -> (plan: SyncPlan)
    ensures
        is_plan(plan, known@, present@, prune),
{
    let mut remove: Vec<u32> = Vec::new();
    if prune {
        let mut k: usize = 0;
        while k < known.len()
            invariant
                k <= known.len(),
                present@.take(present@.len() as int) == present@,
                remove@ == gone(known@, present@, k as int),
            decreases known.len() - k,
        {
            if !holds(present, present.len(), known[k]) {
                remove.push(known[k]);
            }
            k += 1;
        }
    }
    let mut steps: Vec<SyncStep> = Vec::new();
    let mut i: usize = 0;
    while i < present.len()
        invariant
            i <= present.len(),
            known@.take(known@.len() as int) == known@,
            steps@.len() == i,
            forall|j: int|
                0 <= j < i ==> (#[trigger] steps@[j]).id == present@[j] && steps@[j].create == is_new(
                    known@,
                    present@,
                    j,
                ),
        decreases present.len() - i,
    {
        let id: u32 = present[i];
        let create: bool = !holds(known, known.len(), id) && !holds(present, i, id);
        steps.push(SyncStep { id, create });
        i += 1;
    }
    SyncPlan { remove, steps }
}

/// What the snapshot `world` asks of a client that shows the players,
/// bullets and asteroids with the given ids, and what it is to show of each.
/// The players of the snapshot come in the order in which its map hands them
/// out, which is left open.
pub fn on_snapshot_update(
    players: &Vec<u32>,
    bullets: &Vec<u32>,
    asteroids: &Vec<u32>,
    world: &GameWorld,
) -> (plan: ScenePlan)
    ensures
        exists|order: Seq<u32>| #[trigger]
            shows(plan, players@, bullets@, asteroids@, world@, order),
{
    let player_ids = world.player_ids();
    let bullet_ids = world.bullet_ids();
    let asteroid_ids = world.asteroid_ids();
    let mut player_looks: Vec<PlayerLook> = Vec::new();
    let mut k: usize = 0;
    while k < player_ids.len()
        invariant
            k <= player_ids.len(),
            lists(player_ids@, world@.players.dom()),
            player_looks@.len() == k,
            forall|j: int|
                0 <= j < k ==> #[trigger] player_looks@[j] == PlayerLook::of(
                    world@.players[player_ids@[j]],
                ),
        decreases player_ids.len() - k,
    {
        assert(player_ids@.to_set().contains(player_ids@[k as int]));
        let p = world.player(player_ids[k]);
        player_looks.push(PlayerLook::from_player(&p));
        k += 1;
    }
    let mut bullet_places: Vec<Place> = Vec::new();
    let mut i: usize = 0;
    while i < world.bullets.len()
        invariant
            i <= world.bullets.len(),
            bullet_places@.len() == i,
            forall|j: int|
                0 <= j < i ==> #[trigger] bullet_places@[j] == Place::of_bullet(world.bullets@[j]),
        decreases world.bullets.len() - i,
    {
        bullet_places.push(Place { x: world.bullets[i].x, y: world.bullets[i].y });
        i += 1;
    }
    let mut asteroid_places: Vec<Place> = Vec::new();
    let mut j: usize = 0;
    while j < world.asteroids.len()
        invariant
            j <= world.asteroids.len(),
            asteroid_places@.len() == j,
            forall|q: int|
                0 <= q < j ==> #[trigger] asteroid_places@[q] == Place::of_asteroid(
                    world.asteroids@[q],
                ),
        decreases world.asteroids.len() - j,
    {
        asteroid_places.push(Place { x: world.asteroids[j].x, y: world.asteroids[j].y });
        j += 1;
    }
    let plan = ScenePlan {
        players: plan_sync(players, &player_ids, false),
        player_looks,
        bullets: plan_sync(bullets, &bullet_ids, true),
        bullet_places,
        asteroids: plan_sync(asteroids, &asteroid_ids, true),
        asteroid_places,
    };
    proof {
        let w = world@;
        assert(plan.player_looks@ =~= Seq::new(
            player_ids@.len(),
            |k: int| PlayerLook::of(w.players[player_ids@[k]]),
        ));
        assert(plan.bullet_places@ =~= Seq::new(
            w.bullets.len(),
            |i: int| Place::of_bullet(w.bullets[i]),
        ));
        assert(plan.asteroid_places@ =~= Seq::new(
            w.asteroids.len(),
            |i: int| Place::of_asteroid(w.asteroids[i]),
        ));
        assert(shows(plan, players@, bullets@, asteroids@, w, player_ids@));
    }
    plan
}

} // verus!
