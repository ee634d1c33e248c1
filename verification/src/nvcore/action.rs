//! The action system: actions change the state of the engine and may be
//! undone; the cursor marks the position in the list of actions.
use vstd::prelude::*;
use std::collections::{HashMap, VecDeque};
use crate::common::{TypeId, TypeIdTy, gen_128};
use crate::nvcore::ecs::{ComponentTy, ComponentTyReqs, EcsError, EntityOwned, Entman, Id, Storage};
use crate::nvcore::ecs::storage::added_record;

verus! {

broadcast use vstd::std_specs::hash::group_hash_axioms;

/// A type that can serve as the resource an action keeps for its undoing.
pub trait ResrcTy {

}

/// A type that can serve as the parameter of an action.
pub trait ParamTy: Clone {

}

/// A type that can serve as the return value of an action.
pub trait RvTy {

}

/// A type that can serve as the answer to a request.
pub trait ResTy {

}

/// The parameter of an action.
pub struct Param<T: ParamTy>(pub T);

/// A resource: a thin wrapper around a value.
pub struct Resrc<T>(T);

impl<T> Resrc<T> {
    pub closed spec fn spec_inner(self) -> T {
        self.0
    }

    pub fn new(t: T) -> (r: Self)
        ensures
            r.spec_inner() == t,
    {
        Resrc(t)
    }

    pub fn into_type(self) -> (r: T)
        ensures
            r == self.spec_inner(),
    {
        self.0
    }

    pub fn get_ref(&self) -> (r: &T)
        ensures
            *r == self.spec_inner(),
    {
        &self.0
    }
}

/// The position in the list of actions; negative where no action is
/// pointed at.
#[derive(Clone, Copy, Debug, PartialEq, Eq, Structural)]
pub struct ActionCursor {
    cursor: i32,
}

impl ActionCursor {
    pub closed spec fn spec_cursor(self) -> i32 {
        self.cursor
    }

    /// A cursor that points at no action.
    pub fn new() -> (r: Self)
        ensures
            r.spec_cursor() == -1,
    {
        ActionCursor { cursor: -1 }
    }

    /// Whether the cursor points at an action.
    pub fn is_valid(&self) -> (r: bool)
        ensures
            r == (self.spec_cursor() >= 0),
    {
        self.cursor >= 0
    }

    /// Makes the cursor point at no action.
    pub fn reset(&mut self)
        ensures
            final(self).spec_cursor() == -1,
    {
        self.cursor = -1;
    }

    /// The cursor moved forward by `n`.
    pub fn add(self, n: usize) -> (r: Self)
        requires
            self.spec_cursor() + n <= i32::MAX,
        ensures
            r.spec_cursor() == self.spec_cursor() + n,
    {
        let moved = self.cursor as i128 + n as i128;
        ActionCursor { cursor: moved as i32 }
    }

    /// The cursor moved back by `n`, but not below -1.
    pub fn sub(self, n: usize) -> (r: Self)
        ensures
            r.spec_cursor() == if self.spec_cursor() - n < -1 {
                -1
            } else {
                self.spec_cursor() - n
            },
    {
        let moved = self.cursor as i128 - n as i128;
        if moved < -1 {
            ActionCursor { cursor: -1 }
        } else {
            ActionCursor { cursor: moved as i32 }
        }
    }

    /// A cursor at `n`.
    pub fn at(n: i32) -> (r: Self)
        ensures
            r.spec_cursor() == n,
    {
        ActionCursor { cursor: n }
    }

    pub fn get(&self) -> (r: i32)
        ensures
            r == self.spec_cursor(),
    {
        self.cursor
    }
}

/// A request: a function that reads the entity manager, given a parameter
/// of type `P`, and answers with data of type `R` or an error.
#[verifier::reject_recursive_types(R)]
#[verifier::reject_recursive_types(P)]
#[verifier::reject_recursive_types(E)]
pub struct Request<R, P, E, Rq: Fn(&Entman, P) -> Result<R, E>> {
    pub phantom_param: std::marker::PhantomData<P>,
    req_fn: Rq,
    phantom: std::marker::PhantomData<(R, E)>,
}

impl<R, P, E, Rq: Fn(&Entman, P) -> Result<R, E>> Request<R, P, E, Rq> {
    pub closed spec fn spec_req_fn(self) -> Rq {
        self.req_fn
    }

    pub fn new(req_fn: Rq) -> (r: Self)
        ensures
            r.spec_req_fn() == req_fn,
    {
        Request { phantom_param: std::marker::PhantomData, req_fn, phantom: std::marker::PhantomData }
    }

    /// The answer of the function to `p`.
    pub fn exec(&self, em: &Entman, p: P) -> (r: Result<R, E>)
        requires
            call_requires(self.spec_req_fn(), (em, p)),
        ensures
            call_ensures(self.spec_req_fn(), (em, p), r),
    {
        (self.req_fn)(em, p)
    }
}

/// Manages the requests made of the engine.
pub struct Reqman {}

impl Reqman {
    pub fn new() -> (r: Self) {
        Reqman {}
    }

    /// Runs the request on `em` with `param`, answering as its function
    /// answers.
    pub fn request<R, P, E, Rq: Fn(&Entman, P) -> Result<R, E>>(
        &mut self,
        req: Request<R, P, E, Rq>,
        em: &Entman,
        param: P,
    ) -> (r: Result<R, E>)
        requires
            call_requires(req.spec_req_fn(), (em, param)),
        ensures
            call_ensures(req.spec_req_fn(), (em, param), r),
    {
        req.exec(em, param)
    }
}

/// The resource of adding an entity: the entity added.
#[derive(Clone, Copy)]
pub struct AddEntityResrc {
    pub entity: Id,
}

/// The resource of removing an entity: the entity, with its components.
pub struct EntityOwnedResource {
    pub entity: EntityOwned,
}

/// The resource of adding an entity: the entity added.
#[derive(Clone, Copy)]
pub struct AddEntityResource {
    pub entity: Id,
}

/// Adds an entity to the entity manager of the engine; the resource and the
/// value returned are the new entity.
pub fn ae_add_entity(em: &mut Entman, p: ()) -> (r: Result<(AddEntityResrc, Id), EcsError>)
    requires
        old(em).wf(),
    ensures
        final(em).wf(),
        r matches Ok((rs, id)) && rs.entity == id && Entman::added_entity(*old(em), *final(em), id, Seq::<TypeId>::empty())
            && final(em).spec_storage() == old(em).spec_storage(),
{
    let entity = em.add_entity();
    Ok((AddEntityResrc { entity }, entity))
}

/// Undoes [`ae_add_entity`]: removes the entity the resource names, with
/// its components.
pub fn au_add_entity(em: &mut Entman, r: Resrc<&AddEntityResrc>) -> (res: Result<(), EcsError>)
    requires
        old(em).wf(),
    ensures
        res is Ok,
        final(em).wf(),
        final(em).spec_entities() == old(em).spec_entities().remove(r.spec_inner().entity),
        final(em).spec_storage().spec_bins().dom() == old(em).spec_storage().spec_bins().dom(),
        forall|k: u64| #[trigger] final(em).spec_storage().records_of(k) == old(em).spec_storage().records_of(k).remove(
            r.spec_inner().entity,
        ),
{
    em.remove_entity(r.get_ref().entity);
    Ok(())
}

/// Removes the entity `id`, which must exist; the resource is the entity
/// with copies of all its components.
pub fn ae_remove_entity(em: &mut Entman, id: Id) -> (r: Result<(EntityOwned, ()), EcsError>)
    requires
        old(em).wf(),
        old(em).spec_entities().contains_key(id),
    ensures
        final(em).wf(),
        r matches Ok((o, ())) && o.spec_id() == id && o.spec_signature() == old(em).spec_entities()[id].spec_sig(),
        final(em).spec_entities() == old(em).spec_entities().remove(id),
        final(em).spec_storage().spec_bins().dom() == old(em).spec_storage().spec_bins().dom(),
        forall|k: u64| #[trigger] final(em).spec_storage().records_of(k) == old(em).spec_storage().records_of(k).remove(id),
{
    let entity_owned = match em.get_entity_owned(id) {
        Ok(o) => o,
        Err(e) => return Err(e),
    };
    em.remove_entity(id);
    Ok((entity_owned, ()))
}

/// Adds the component `p.1` to the entity `p.0`, which must exist; the
/// resource is the entity and the type of the component.
pub fn ae_add_component<C: ComponentTyReqs>(em: &mut Entman, p: (Id, C)) -> (r: Result<((Id, TypeId), ()), EcsError>)
    requires
        old(em).wf(),
        old(em).spec_entities().contains_key(p.0),
    ensures
        final(em).wf(),
        r matches Ok(((e, t), ())) && e == p.0 && t.id == C::type_id_spec(),
        Storage::only_bin_changed(old(em).spec_storage(), final(em).spec_storage(), C::type_id_spec(), C::kind_spec()),
        added_record(
            old(em).spec_storage().records_of(C::type_id_spec()),
            final(em).spec_storage().records_of(C::type_id_spec()),
            p.0,
            p.1.graph_spec(),
        ),
        Entman::signature_gained(*old(em), *final(em), p.0, TypeId { id: C::type_id_spec() }),
{
    let (entity, component) = p;
    let tid = C::get_type_id();
    match em.add_component(entity, component) {
        Ok(()) => {},
        Err(e) => return Err(e),
    }
    Ok(((entity, tid), ()))
}

/// Undoing the adding of an entity takes the entity away again: it is no
/// longer an entity, and there is one entity fewer than after the adding.
pub proof fn law_add_entity_undone_count(before: Entman, mid: Entman, after: Entman, rs: AddEntityResrc, id: Id)
    requires
        mid.wf(),
        rs.entity == id,
        Entman::added_entity(before, mid, id, Seq::<TypeId>::empty()),
        after.spec_entities() == mid.spec_entities().remove(rs.entity),
    ensures
        !after.spec_entities().contains_key(id),
        after.spec_entities().len() == mid.spec_entities().len() - 1,
{
}

/// Undoing the adding of an entity gives back the entities there were, and
/// leaves the stores as they were, where the new identifier was not in use.
pub proof fn law_add_entity_undone(before: Entman, mid: Entman, after: Entman, rs: AddEntityResrc, id: Id)
    requires
        rs.entity == id,
        !before.spec_entities().contains_key(id),
        forall|k: u64| !(#[trigger] before.spec_storage().records_of(k)).contains_key(id),
        Entman::added_entity(before, mid, id, Seq::<TypeId>::empty()),
        mid.spec_storage() == before.spec_storage(),
        after.spec_entities() == mid.spec_entities().remove(rs.entity),
        after.spec_storage().spec_bins().dom() == mid.spec_storage().spec_bins().dom(),
        forall|k: u64| #[trigger] after.spec_storage().records_of(k) == mid.spec_storage().records_of(k).remove(rs.entity),
    ensures
        after.spec_entities() == before.spec_entities(),
        after.spec_storage().spec_bins().dom() == before.spec_storage().spec_bins().dom(),
        forall|k: u64| #[trigger] after.spec_storage().records_of(k) == before.spec_storage().records_of(k),
{
    assert(after.spec_entities() =~= before.spec_entities());
    assert forall|k: u64| #[trigger] after.spec_storage().records_of(k) == before.spec_storage().records_of(k) by {
        assert(before.spec_storage().records_of(k).remove(id) =~= before.spec_storage().records_of(k));
    }
}

/// The value an action returns to its caller, once it has been filled.
pub struct ReturnValue<Rv> {
    rv: Option<Rv>,
}

impl<Rv: Copy> ReturnValue<Rv> {
    pub closed spec fn spec_value(self) -> Option<Rv> {
        self.rv
    }

    /// A return value holding `rv`, if any.
    pub fn new(rv: Option<Rv>) -> (r: Self)
        ensures
            r.spec_value() == rv,
    {
        ReturnValue { rv }
    }

    /// Fills this return value with `rv`.
    pub fn fill(&mut self, rv: Rv)
        ensures
            final(self).spec_value() == Some(rv),
    {
        self.rv = Some(rv);
    }

    /// The value; an error where it has not been filled.
    pub fn get(&self) -> (r: Result<Rv, ActionError>)
        ensures
            match self.spec_value() {
                Some(v) => r == Ok::<Rv, ActionError>(v),
                None => r == Err::<Rv, ActionError>(ActionError::NoReturnValue),
            },
    {
        match self.rv {
            Some(v) => Ok(v),
            None => Err(ActionError::NoReturnValue),
        }
    }
}

/// The errors of the action system.
#[derive(Debug, Clone, Copy, PartialEq, Eq, Structural)]
pub enum ActionError {
    /// The cursor points at no action.
    CursorInvalid,
    /// The action has no undo.
    NoUndo,
    /// The action has not been completed, so it cannot be undone.
    NotCompleted(u128),
    /// The entity manager refused the change.
    Ecs(EcsError),
    /// The return value has not been filled.
    NoReturnValue,
}

/// The actions the engine knows: what each executes and how it is undone.
#[derive(Debug, Clone, Copy, PartialEq, Eq, Structural)]
pub enum EngineAction {
    /// Adds an entity ([`ae_add_entity`]); undone by [`au_add_entity`].
    AddEntity,
    /// Removes an entity ([`ae_remove_entity`]); it has no undo here.
    RemoveEntity(Id),
}

/// What an executed action returns to its caller.
#[derive(Debug, Clone, Copy, PartialEq, Eq, Structural)]
pub enum ActionValue {
    /// The entity the action made.
    Entity(Id),
    /// Nothing.
    Nothing,
}

/// What an executed action keeps for its undoing.
pub enum ActionResource {
    AddedEntity(AddEntityResrc),
    RemovedEntity(EntityOwned),
}

/// An action: its identifier, its parameter (which also fixes what it
/// executes and how it is undone), and whether it has been executed.
#[derive(Clone, Copy)]
pub struct StaticAction {
    pub action_id: u128,
    pub param: EngineAction,
    pub is_complete: bool,
}

/// What executing `param` did to the entity manager, the resource it kept
/// and the value it returned.
pub open spec fn executed(
    param: EngineAction,
    before: Entman,
    after: Entman,
    res: ActionResource,
    rv: ActionValue,
) -> bool {
    &&& after.wf()
    &&& match param {
        EngineAction::AddEntity => res matches ActionResource::AddedEntity(rs) && Entman::added_entity(
            before,
            after,
            rs.entity,
            Seq::<TypeId>::empty(),
        ) && after.spec_storage() == before.spec_storage() && rv == ActionValue::Entity(rs.entity),
        EngineAction::RemoveEntity(id) => res matches ActionResource::RemovedEntity(o) && o.spec_id() == id
            && removed_entity(before, after, id) && rv == ActionValue::Nothing,
    }
}

/// `after` is `before` without the entity `id` and its components.
pub open spec fn removed_entity(before: Entman, after: Entman, id: Id) -> bool {
    &&& after.spec_entities() == before.spec_entities().remove(id)
    &&& after.spec_storage().spec_bins().dom() == before.spec_storage().spec_bins().dom()
    &&& forall|k: u64| #[trigger] after.spec_storage().records_of(k) == before.spec_storage().records_of(k).remove(id)
}

/// Whether `param` can be executed on `em`: an entity to remove exists.
pub open spec fn can_execute(param: EngineAction, em: Entman) -> bool {
    param matches EngineAction::RemoveEntity(id) ==> em.spec_entities().contains_key(id)
}

impl StaticAction {
    /// The action of parameter `p` and identifier `id`, not yet executed.
    pub open spec fn new_static_spec(p: EngineAction, id: u128) -> Self {
        StaticAction { action_id: id, param: p, is_complete: false }
    }

    /// An action with the identifier `id`, not yet executed.
    pub fn new_static(p: EngineAction, id: u128) -> (r: Self)
        ensures
            r == Self::new_static_spec(p, id),
    {
        StaticAction { action_id: id, param: p, is_complete: false }
    }

    /// An action with a random identifier, not yet executed.
    pub fn new(p: EngineAction) -> (r: Self)
        ensures
            r.param == p,
            !r.is_complete,
    {
        StaticAction { action_id: gen_128(), param: p, is_complete: false }
    }

    /// Executes the action on `em`, marking it complete.
    pub fn exec(&mut self, em: &mut Entman) -> (r: Result<(ActionResource, ActionValue), ActionError>)
        requires
            old(em).wf(),
            can_execute(old(self).param, *old(em)),
        ensures
            *final(self) == (StaticAction { is_complete: true, ..*old(self) }),
            r matches Ok((res, rv)) && executed(old(self).param, *old(em), *final(em), res, rv),
    {
        self.is_complete = true;
        match self.param {
            EngineAction::AddEntity => match ae_add_entity(em, ()) {
                Ok((rs, id)) => Ok((ActionResource::AddedEntity(rs), ActionValue::Entity(id))),
                Err(e) => Err(ActionError::Ecs(e)),
            },
            EngineAction::RemoveEntity(id) => match ae_remove_entity(em, id) {
                Ok((o, ())) => Ok((ActionResource::RemovedEntity(o), ActionValue::Nothing)),
                Err(e) => Err(ActionError::Ecs(e)),
            },
        }
    }

    /// Undoes the action, which must have been completed, with the
    /// resource it kept; afterwards it is no longer complete.
    pub fn undo(&mut self, em: &mut Entman, resrc: &ActionResource) -> (r: Result<(), ActionError>)
        requires
            old(em).wf(),
            old(self).param is AddEntity && old(self).is_complete ==> resrc is AddedEntity,
        ensures
            final(em).wf(),
            !old(self).is_complete ==> r == Err::<(), ActionError>(ActionError::NotCompleted(old(self).action_id))
                && *final(self) == *old(self) && *final(em) == *old(em),
            old(self).is_complete && old(self).param is RemoveEntity ==> r == Err::<(), ActionError>(
                ActionError::NoUndo,
            ) && *final(self) == *old(self) && *final(em) == *old(em),
            old(self).is_complete && old(self).param is AddEntity ==> r is Ok && *final(self) == (StaticAction {
                is_complete: false,
                ..*old(self)
            }) && removed_entity(*old(em), *final(em), resrc->AddedEntity_0.entity),
    {
        if !self.is_complete {
            return Err(ActionError::NotCompleted(self.action_id));
        }
        match (self.param, resrc) {
            (EngineAction::AddEntity, ActionResource::AddedEntity(rs)) => {
                let _ = au_add_entity(em, Resrc::new(rs));
                self.is_complete = false;
                Ok(())
            },
            (EngineAction::AddEntity, ActionResource::RemovedEntity(_)) => Err(ActionError::NoUndo),
            (EngineAction::RemoveEntity(_), _) => Err(ActionError::NoUndo),
        }
    }
}

/// Makes the action that adds an entity.
pub struct AddEntityConstructor {}

impl AddEntityConstructor {
    /// The action adding an entity, with identifier 0.
    pub fn construct(&self) -> (r: StaticAction)
        ensures
            r == StaticAction::new_static_spec(EngineAction::AddEntity, 0),
    {
        StaticAction::new_static(EngineAction::AddEntity, 0)
    }
}

/// Makes the action that removes an entity.
pub struct RemoveEntityConstructor {}

impl RemoveEntityConstructor {
    /// The action removing the entity of the default identifier (0), with
    /// identifier 1.
    pub fn construct(&self) -> (r: StaticAction)
        ensures
            r == StaticAction::new_static_spec(EngineAction::RemoveEntity(0), 1),
    {
        StaticAction::new_static(EngineAction::RemoveEntity(0), 1)
    }
}

/// Manages actions and the resources they keep; the cursor marks the
/// position in the list of actions, which the newest registered heads.
pub struct Actman {
    actions: VecDeque<StaticAction>,
    resources: HashMap<u128, ActionResource>,
    /// For each registered action, whether a value is expected of it and,
    /// once it has run, the value.
    return_values: HashMap<u128, Option<Option<ActionValue>>>,
    cursor: ActionCursor,
}

impl Actman {
    pub closed spec fn spec_actions(self) -> Seq<StaticAction> {
        self.actions@
    }

    pub closed spec fn spec_resources(self) -> Map<u128, ActionResource> {
        self.resources@
    }

    pub closed spec fn spec_cursor(self) -> i32 {
        self.cursor.spec_cursor()
    }

    pub closed spec fn spec_return_values(self) -> Map<u128, Option<Option<ActionValue>>> {
        self.return_values@
    }

    /// No actions, no resources, and a cursor that points at none.
    pub fn new() -> (r: Self)
        ensures
            r.spec_actions() == Seq::<StaticAction>::empty(),
            r.spec_resources() == Map::<u128, ActionResource>::empty(),
            r.spec_return_values() == Map::<u128, Option<Option<ActionValue>>>::empty(),
            r.spec_cursor() == -1,
    {
        Actman {
            actions: VecDeque::new(),
            resources: HashMap::new(),
            return_values: HashMap::new(),
            cursor: ActionCursor::new(),
        }
    }

    /// The actions kept when a new one is registered: where the cursor is
    /// past the first, those before it; otherwise all.
    pub open spec fn kept(self) -> Seq<StaticAction> {
        if self.spec_cursor() > 0 {
            self.spec_actions().take(self.spec_cursor() as int)
        } else {
            self.spec_actions()
        }
    }

    /// Registers `action` at the head of the list: the actions from the
    /// cursor on are dropped first where the cursor is past the first, and
    /// the cursor then points at the number of actions kept.
    pub fn register_action(&mut self, action: StaticAction)
        requires
            old(self).spec_cursor() <= old(self).spec_actions().len(),
            old(self).kept().len() <= i32::MAX,
        ensures
            final(self).spec_actions() == seq![action] + old(self).kept(),
            final(self).spec_cursor() == old(self).kept().len(),
            final(self).spec_resources() == old(self).spec_resources(),
            final(self).spec_return_values() == old(self).spec_return_values().insert(action.action_id, None),
    {
        if self.cursor.get() > 0 {
            self.actions.truncate(self.cursor.get() as usize);
        }
        self.return_values.insert(action.action_id, None);
        self.cursor = ActionCursor::at(self.actions.len() as i32);
        self.actions.push_front(action);
        assert(self.actions@ =~= seq![action] + old(self).kept());
    }

    /// Registers `action` as [`Actman::register_action`] does, expecting a
    /// value of it; gives the key under which [`Actman::get_return_value`]
    /// finds that value once the action has run.
    pub fn register_action_with_rv(&mut self, action: StaticAction) -> (r: u128)
        requires
            old(self).spec_cursor() <= old(self).spec_actions().len(),
            old(self).kept().len() <= i32::MAX,
        ensures
            r == action.action_id,
            final(self).spec_actions() == seq![action] + old(self).kept(),
            final(self).spec_cursor() == old(self).kept().len(),
            final(self).spec_resources() == old(self).spec_resources(),
            final(self).spec_return_values() == old(self).spec_return_values().insert(
                action.action_id,
                Some(None::<ActionValue>),
            ),
    {
        if self.cursor.get() > 0 {
            self.actions.truncate(self.cursor.get() as usize);
        }
        self.return_values.insert(action.action_id, Some(None));
        self.cursor = ActionCursor::at(self.actions.len() as i32);
        self.actions.push_front(action);
        assert(self.actions@ =~= seq![action] + old(self).kept());
        action.action_id
    }

    /// The value returned by the action registered under `key`; an error
    /// where none is expected of it or it has not run yet.
    pub fn get_return_value(&self, key: u128) -> (r: Result<ActionValue, ActionError>)
        ensures
            match r {
                Ok(v) => self.spec_return_values().contains_key(key) && self.spec_return_values()[key] == Some(
                    Some(v),
                ),
                Err(e) => e == ActionError::NoReturnValue && !(self.spec_return_values().contains_key(key)
                    && self.spec_return_values()[key] matches Some(Some(_))),
            },
    {
        match self.return_values.get(&key) {
            Some(Some(Some(v))) => Ok(*v),
            _ => Err(ActionError::NoReturnValue),
        }
    }

    /// Executes the action at the cursor, keeps its resource under a new
    /// random identifier, which the action takes as its own, and moves the
    /// cursor forward by one; an error where the cursor points at no action.
    pub fn advance(&mut self, em: &mut Entman) -> (r: Result<(), ActionError>)
        requires
            old(em).wf(),
            old(self).spec_cursor() >= 0 ==> {
                &&& old(self).spec_cursor() < old(self).spec_actions().len()
                &&& old(self).spec_cursor() < i32::MAX
                &&& can_execute(old(self).spec_actions()[old(self).spec_cursor() as int].param, *old(em))
                &&& old(self).spec_return_values().contains_key(
                    old(self).spec_actions()[old(self).spec_cursor() as int].action_id,
                )
            },
        ensures
            final(em).wf(),
            old(self).spec_cursor() < 0 ==> r == Err::<(), ActionError>(ActionError::CursorInvalid)
                && *final(self) == *old(self) && *final(em) == *old(em),
            old(self).spec_cursor() >= 0 ==> {
                let c = old(self).spec_cursor() as int;
                let a = old(self).spec_actions()[c];
                &&& r is Ok
                &&& final(self).spec_cursor() == c + 1
                &&& exists|rid: u128, res: ActionResource, rv: ActionValue|
                    {
                        &&& executed(a.param, *old(em), *final(em), res, rv)
                        &&& final(self).spec_return_values() == if old(self).spec_return_values()[a.action_id] is Some {
                            old(self).spec_return_values().insert(a.action_id, Some(Some(rv)))
                        } else {
                            old(self).spec_return_values()
                        }
                        &&& final(self).spec_actions() == old(self).spec_actions().update(
                            c,
                            StaticAction { action_id: rid, param: a.param, is_complete: true },
                        )
                        &&& #[trigger] final(self).spec_resources() == old(self).spec_resources().insert(rid, res)
                    }
            },
    {
        if !self.cursor.is_valid() {
            return Err(ActionError::CursorInvalid);
        }
        let c = self.cursor.get() as usize;
        let mut action = self.actions[c];
        let ghost acts0 = self.actions@;
        let (rsrc, retval) = match action.exec(em) {
            Ok(res) => res,
            Err(e) => {
                let _ = self.actions.remove(c);
                self.actions.insert(c, action);
                return Err(e);
            },
        };
        let ghost res = rsrc;
        let aid = action.action_id;
        let expected = match self.return_values.get(&aid) {
            Some(Some(_)) => true,
            _ => false,
        };
        if expected {
            self.return_values.insert(aid, Some(Some(retval)));
        }
        let resource_id = gen_128();
        action.action_id = resource_id;
        let _ = self.actions.remove(c);
        self.actions.insert(c, action);
        assert(self.actions@ =~= acts0.update(c as int, action));
        self.resources.insert(resource_id, rsrc);
        self.cursor = self.cursor.add(1);
        assert(self.actions@ == old(self).actions@.update(
            c as int,
            StaticAction { action_id: resource_id, param: old(self).actions@[c as int].param, is_complete: true },
        ));
        assert(self.resources@ == old(self).resources@.insert(resource_id, res));
        assert(executed(old(self).actions@[c as int].param, *old(em), *em, res, retval));
        assert(self.cursor.spec_cursor() == c + 1);
        assert(self.spec_resources() == old(self).spec_resources().insert(resource_id, res));
        Ok(())
    }

    /// Takes the last action off the list and undoes it with the resource
    /// kept under its identifier, then moves the cursor back by one; the
    /// action is taken off even where its undoing fails.
    pub fn regress(&mut self, em: &mut Entman) -> (r: Result<(), ActionError>)
        requires
            old(em).wf(),
            old(self).spec_actions().len() > 0,
            old(self).spec_resources().contains_key(old(self).spec_actions().last().action_id),
            old(self).spec_actions().last().param is AddEntity && old(self).spec_actions().last().is_complete
                ==> old(self).spec_resources()[old(self).spec_actions().last().action_id] is AddedEntity,
        ensures
            final(em).wf(),
            final(self).spec_actions() == old(self).spec_actions().drop_last(),
            final(self).spec_resources() == old(self).spec_resources(),
            final(self).spec_return_values() == old(self).spec_return_values(),
            ({
                let a = old(self).spec_actions().last();
                let res = old(self).spec_resources()[a.action_id];
                if !a.is_complete {
                    r == Err::<(), ActionError>(ActionError::NotCompleted(a.action_id)) && *final(em) == *old(em)
                        && final(self).spec_cursor() == old(self).spec_cursor()
                } else if a.param is RemoveEntity {
                    r == Err::<(), ActionError>(ActionError::NoUndo) && *final(em) == *old(em)
                        && final(self).spec_cursor() == old(self).spec_cursor()
                } else {
                    &&& r is Ok
                    &&& removed_entity(*old(em), *final(em), res->AddedEntity_0.entity)
                    &&& final(self).spec_cursor() == if old(self).spec_cursor() - 1 < -1 {
                        -1
                    } else {
                        old(self).spec_cursor() - 1
                    }
                }
            }),
    {
        let mut action = self.actions.pop_back().unwrap();
        let action_id = action.action_id;
        let r = self.resources.get(&action_id).unwrap();
        match action.undo(em, r) {
            Ok(()) => {},
            Err(e) => return Err(e),
        }
        self.cursor = self.cursor.sub(1);
        Ok(())
    }

    /// Drops every action and resource and makes the cursor point at none.
    pub fn dispose(&mut self)
        ensures
            final(self).spec_actions() == Seq::<StaticAction>::empty(),
            final(self).spec_resources() == Map::<u128, ActionResource>::empty(),
            final(self).spec_return_values() == old(self).spec_return_values(),
            final(self).spec_cursor() == -1,
    {
        self.cursor.reset();
        self.resources.clear();
        self.actions.clear();
    }
}

/// Moving the cursor back never leaves it below -1, and moving it back by
/// as much as it was moved forward returns it where it was.
pub proof fn law_cursor_back_and_forth(c: i32, n: usize)
    requires
        c >= -1,
        c + n <= i32::MAX,
    ensures
        (if c - n < -1 {
            -1
        } else {
            c - n
        }) >= -1,
        (if (c + n) - n < -1 {
            -1
        } else {
            (c + n) - n
        }) == c,
{
}

} // verus!
