//! The lifetime of enemies and the groups that hold them.
use vstd::prelude::*;

verus! {

/// The stage of an enemy's life.
#[derive(PartialEq, Eq, Structural, Debug, Clone, Copy)]
pub enum EnemyLifetime {
    /// The enemy has not spawned yet.
    Unspawned,
    /// The enemy's hitbox is not active and a warmup animation is shown.
    Warmup,
    /// The enemy's hitbox is active.
    Active,
    /// The enemy's hitbox is not active and a cooldown animation is shown.
    Cooldown,
    /// The enemy is now dead.
    Dead,
}

impl EnemyLifetime {
    /// Whether an enemy at this stage is on screen: it is updated and drawn
    /// from its warmup through its cooldown.
    pub open spec fn spec_is_live(self) -> bool {
        self is Warmup || self is Active || self is Cooldown
    }

    /// Whether an enemy at this stage is updated and drawn: neither before it
    /// spawns nor once it is dead.
    pub fn is_live(&self) -> (res: bool)
        ensures
            res == self.spec_is_live(),
    {
        match self {
            EnemyLifetime::Unspawned => false,
            EnemyLifetime::Dead => false,
            _ => true,
        }
    }

    /// Whether an enemy at this stage has a hitbox: only while it is active.
    pub fn has_hitbox(&self) -> (res: bool)
        ensures
            res == (*self is Active),
    {
        match self {
            EnemyLifetime::Active => true,
            _ => false,
        }
    }
}

/// A group of enemies that chart commands act on together. `E` is the type of
/// the enemies, `F` that of the group's fade-out and `R` that of its rotation.
#[derive(Debug)]
pub struct EnemyGroup<E, F, R> {
    pub enemies: Vec<E>,
    pub use_hitbox: bool,
    pub do_render: bool,
    pub render_warmup: bool,
    pub fadeout: Option<F>,
    pub rotation: Option<R>,
}

/// A chart command that changes a group's settings.
#[derive(PartialEq, Eq, Structural, Debug, Clone, Copy)]
pub enum GroupSetting {
    /// Turn the hitboxes of the group's enemies on or off.
    SetHitbox(bool),
    /// Show or hide the warmup of the group's enemies.
    ShowWarmup(bool),
    /// Show or hide the group's enemies.
    SetRender(bool),
    /// Remove every enemy of the group.
    ClearEnemies,
    /// Stop fading the group out.
    FadeOutOff,
    /// Stop rotating the group.
    RotationOff,
}

/// A group as a new one is: no enemies, hitboxes on, drawn with the warmups,
/// neither fading nor rotating.
pub open spec fn is_fresh_group<E, F, R>(group: EnemyGroup<E, F, R>) -> bool {
    &&& group.enemies@.len() == 0
    &&& group.use_hitbox
    &&& group.do_render
    &&& group.render_warmup
    &&& group.fadeout is None
    &&& group.rotation is None
}

/// The enemies of `enemies` whose stage in `lifetimes` is not dead, in order.
pub open spec fn alive_only<E>(enemies: Seq<E>, lifetimes: Seq<EnemyLifetime>) -> Seq<E>
    decreases enemies.len(),
{
    if enemies.len() == 0 {
        Seq::empty()
    } else {
        let rest = alive_only(enemies.drop_first(), lifetimes.drop_first());
        if lifetimes[0] is Dead {
            rest
        } else {
            seq![enemies[0]] + rest
        }
    }
}

impl<E, F, R> EnemyGroup<E, F, R> {
    /// A new group: no enemies, hitboxes on, drawn with the warmups, neither
    /// fading nor rotating.
    pub fn new() -> (group: EnemyGroup<E, F, R>)
        ensures
            is_fresh_group(group),
    {
        EnemyGroup {
            enemies: Vec::new(),
            use_hitbox: true,
            do_render: true,
            render_warmup: true,
            fadeout: None,
            rotation: None,
        }
    }

    /// Whether an enemy of this group at stage `lifetime` is drawn: only when
    /// the group is drawn, the enemy is on screen, and, during its warmup, when
    /// the group shows warmups.
    pub fn draws(&self, lifetime: EnemyLifetime) -> (res: bool)
        ensures
            res == (self.do_render && lifetime.spec_is_live() && (self.render_warmup || !(lifetime is Warmup))),
    {
        if !self.do_render {
            return false;
        }
        if !self.render_warmup && lifetime == EnemyLifetime::Warmup {
            return false;
        }
        lifetime.is_live()
    }

    /// Whether an enemy of this group at stage `lifetime` can hit the player:
    /// only when the group's hitboxes are on and the enemy is active.
    pub fn can_hit(&self, lifetime: EnemyLifetime) -> (res: bool)
        ensures
            res == (self.use_hitbox && lifetime is Active),
    {
        lifetime.has_hitbox() && self.use_hitbox
    }

    /// Apply a chart command that changes the group's settings: it sets the
    /// one setting that it names and leaves everything else as it was.
    pub fn apply_setting(&mut self, setting: GroupSetting)
        ensures
            final(self).use_hitbox == match setting {
                GroupSetting::SetHitbox(on) => on,
                _ => old(self).use_hitbox,
            },
            final(self).render_warmup == match setting {
                GroupSetting::ShowWarmup(show) => show,
                _ => old(self).render_warmup,
            },
            final(self).do_render == match setting {
                GroupSetting::SetRender(show) => show,
                _ => old(self).do_render,
            },
            final(self).enemies@ == if setting is ClearEnemies { Seq::empty() } else { old(self).enemies@ },
            final(self).fadeout == if setting is FadeOutOff { None } else { old(self).fadeout },
            final(self).rotation == if setting is RotationOff { None } else { old(self).rotation },
    {
        match setting {
            GroupSetting::SetHitbox(on) => self.use_hitbox = on,
            GroupSetting::ShowWarmup(show) => self.render_warmup = show,
            GroupSetting::SetRender(show) => self.do_render = show,
            GroupSetting::ClearEnemies => self.enemies.clear(),
            GroupSetting::FadeOutOff => self.fadeout = None,
            GroupSetting::RotationOff => self.rotation = None,
        }
    }

    /// Remove the dead enemies: `lifetimes` gives the stage of each enemy, in
    /// order. The others stay, in order.
    pub fn remove_dead(&mut self, lifetimes: &Vec<EnemyLifetime>)
        requires
            lifetimes@.len() == old(self).enemies@.len(),
        ensures
            final(self).enemies@ == alive_only(old(self).enemies@, lifetimes@),
            final(self).use_hitbox == old(self).use_hitbox,
            final(self).do_render == old(self).do_render,
            final(self).render_warmup == old(self).render_warmup,
            final(self).fadeout == old(self).fadeout,
            final(self).rotation == old(self).rotation,
    {
        let ghost all = self.enemies@;
        let ghost start = *self;
        let mut rest: Vec<E> = Vec::new();
        std::mem::swap(&mut rest, &mut self.enemies);
        let mut i: usize = 0;
        proof {
            assert(lifetimes@.skip(0) =~= lifetimes@);
            assert(rest@.skip(0) =~= rest@);
            assert(self.enemies@ + alive_only(rest@, lifetimes@) =~= alive_only(all, lifetimes@));
        }
        while rest.len() > 0
            invariant
                i + rest@.len() == all.len(),
                all.len() == lifetimes.len(),
                self.use_hitbox == start.use_hitbox,
                self.do_render == start.do_render,
                self.render_warmup == start.render_warmup,
                self.fadeout == start.fadeout,
                self.rotation == start.rotation,
                lifetimes@.len() == all.len(),
                rest@ == all.skip(i as int),
                self.enemies@ + alive_only(rest@, lifetimes@.skip(i as int)) == alive_only(all, lifetimes@),
            decreases rest@.len(),
        {
            let ghost before = rest@;
            let enemy = rest.remove(0);
            proof {
                assert(rest@ =~= before.drop_first());
                assert(lifetimes@.skip(i as int).drop_first() =~= lifetimes@.skip(i + 1));
                assert(rest@ =~= all.skip(i + 1));
            }
            if lifetimes[i] != EnemyLifetime::Dead {
                let ghost kept = self.enemies@;
                self.enemies.push(enemy);
                proof {
                    assert(self.enemies@ + alive_only(rest@, lifetimes@.skip(i + 1)) =~= kept + (seq![before[0]]
                        + alive_only(before.drop_first(), lifetimes@.skip(i as int).drop_first())));
                }
            }
            i = i + 1;
        }
        proof {
            assert(self.enemies@ =~= self.enemies@ + alive_only(rest@, lifetimes@.skip(i as int)));
        }
    }
}

/// The groups before `group_number` come first and stay; the group list grows
/// with new groups up to and including `group_number` when it is shorter.
pub open spec fn spec_groups_after_ensure<E, F, R>(
    old_groups: Seq<EnemyGroup<E, F, R>>,
    new_groups: Seq<EnemyGroup<E, F, R>>,
    group_number: nat,
) -> bool {
    &&& new_groups.len() == if group_number < old_groups.len() { old_groups.len() } else { group_number + 1 }
    &&& forall|i: int| 0 <= i < old_groups.len() ==> #[trigger] new_groups[i] == old_groups[i]
    &&& forall|i: int| old_groups.len() <= i < new_groups.len() ==> is_fresh_group(#[trigger] new_groups[i])
}

/// Make sure that the group `group_number` exists, adding new groups at the
/// end of `groups` as needed. The existing groups are left as they are.
pub fn ensure_group<E, F, R>(groups: &mut Vec<EnemyGroup<E, F, R>>, group_number: usize)
    requires
        group_number < usize::MAX,
    ensures
        spec_groups_after_ensure(old(groups)@, final(groups)@, group_number as nat),
{
    let ghost before = groups@;
    while groups.len() <= group_number
        invariant
            group_number < usize::MAX,
            before.len() <= groups@.len(),
            groups@.len() <= if group_number < before.len() { before.len() as int } else { group_number + 1 },
            forall|i: int| 0 <= i < before.len() ==> #[trigger] groups@[i] == before[i],
            forall|i: int| before.len() <= i < groups@.len() ==> is_fresh_group(#[trigger] groups@[i]),
        decreases group_number + 1 - groups@.len(),
    {
        groups.push(EnemyGroup::new());
    }
}

/// Making sure that an existing group exists changes nothing.
pub proof fn lemma_ensure_existing_group<E, F, R>(
    old_groups: Seq<EnemyGroup<E, F, R>>,
    new_groups: Seq<EnemyGroup<E, F, R>>,
    group_number: nat,
)
    requires
        group_number < old_groups.len(),
        spec_groups_after_ensure(old_groups, new_groups, group_number),
    ensures
        new_groups == old_groups,
{
    assert(new_groups =~= old_groups);
}

/// Removing the dead enemies keeps exactly the enemies that are not dead: when
/// none is dead all of them stay, and no dead one is ever kept.
pub proof fn lemma_alive_only<E>(enemies: Seq<E>, lifetimes: Seq<EnemyLifetime>)
    requires
        enemies.len() == lifetimes.len(),
    ensures
        alive_only(enemies, lifetimes).len() <= enemies.len(),
        (forall|i: int| 0 <= i < lifetimes.len() ==> !(#[trigger] lifetimes[i] is Dead))
            ==> alive_only(enemies, lifetimes) == enemies,
        (forall|i: int| 0 <= i < lifetimes.len() ==> #[trigger] lifetimes[i] is Dead)
            ==> alive_only(enemies, lifetimes).len() == 0,
    decreases enemies.len(),
{
    if enemies.len() > 0 {
        lemma_alive_only(enemies.drop_first(), lifetimes.drop_first());
        if forall|i: int| 0 <= i < lifetimes.len() ==> !(#[trigger] lifetimes[i] is Dead) {
            assert forall|i: int| 0 <= i < lifetimes.drop_first().len() implies !(#[trigger] lifetimes.drop_first()[i] is Dead) by {
                assert(lifetimes.drop_first()[i] == lifetimes[i + 1]);
            }
            assert(alive_only(enemies, lifetimes) =~= enemies);
        }
        if forall|i: int| 0 <= i < lifetimes.len() ==> #[trigger] lifetimes[i] is Dead {
            assert forall|i: int| 0 <= i < lifetimes.drop_first().len() implies #[trigger] lifetimes.drop_first()[i] is Dead by {
                assert(lifetimes.drop_first()[i] == lifetimes[i + 1]);
            }
        }
    }
}

} // verus!
