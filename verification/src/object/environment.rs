//! Lexical environment: an arena of scope frames. A frame maps identifier
//! names to values and holds a handle to its outer frame. Closures store a
//! frame handle; the arena only grows, so a captured handle stays valid for
//! the life of the environment.

use vstd::prelude::*;
use super::{Object, ObjV, obj_v};

verus! {

/// One scope frame: its bindings (later entries shadow earlier ones), a
/// handle to the outer frame, and its nesting level (0 for the global
/// frame).
#[derive(Debug)]
pub struct Frame {
    pub binding: Vec<(String, Object)>,
    pub outer: Option<usize>,
    pub level: usize,
}

/// The environment: an arena of frames, indexed by handles. Handle 0 is the
/// global frame.
#[derive(Debug)]
pub struct Environment {
    pub frames: Vec<Frame>,
}

/// Model of one frame: the binding list as a map (later entries win), the
/// outer handle, and the nesting level.
pub struct FrameV {
    pub binding: Map<Seq<char>, ObjV>,
    pub outer: Option<int>,
    pub level: int,
}

/// The map a binding list denotes: entries applied left to right, so the
/// latest entry for a name wins.
pub open spec fn map_of(s: Seq<(String, Object)>) -> Map<Seq<char>, ObjV>
    decreases s,
{
    if s.len() == 0 {
        Map::empty()
    } else {
        map_of(s.drop_last()).insert(s.last().0@, obj_v(s.last().1))
    }
}

pub open spec fn frame_v(f: Frame) -> FrameV {
    FrameV {
        binding: map_of(f.binding@),
        outer: match f.outer {
            Some(j) => Some(j as int),
            None => None,
        },
        level: f.level as int,
    }
}

impl View for Frame {
    type V = FrameV;

    open spec fn view(&self) -> FrameV {
        frame_v(*self)
    }
}

impl View for Environment {
    type V = Seq<FrameV>;

    open spec fn view(&self) -> Seq<FrameV> {
        self.frames@.map_values(|f: Frame| frame_v(f))
    }
}

/// Structural well-formedness of the arena: every frame's outer handle
/// points to an earlier frame, and levels count the nesting depth.
pub open spec fn env_wf(env: Seq<FrameV>) -> bool {
    forall|i: int|
        #![trigger env[i]]
        0 <= i < env.len() ==> (match env[i].outer {
            Some(j) => 0 <= j < i && env[i].level == env[j].level + 1,
            None => env[i].level == 0,
        })
}

/// A value is well formed with respect to an arena of `n` frames: every
/// closure handle in it points into the arena.
pub open spec fn obj_wf(v: ObjV, n: nat) -> bool
    decreases v,
{
    match v {
        ObjV::Return { value } => match value {
            Some(b) => obj_wf(*b, n),
            None => true,
        },
        ObjV::Int { .. } => true,
        ObjV::Bool { .. } => true,
        ObjV::String { .. } => true,
        ObjV::Function { env, .. } => 0 <= env < n,
        ObjV::Array { elements } => forall|i: int|
            0 <= i < elements.len() ==> obj_wf(#[trigger] elements[i], n),
    }
}

/// Every value bound in the frame is well formed.
pub open spec fn frame_objs_wf(f: FrameV, n: nat) -> bool {
    forall|k: Seq<char>| f.binding.dom().contains(k) ==> obj_wf(#[trigger] f.binding[k], n)
}

/// Every value bound anywhere in the arena is well formed.
pub open spec fn env_objs_wf(env: Seq<FrameV>) -> bool {
    forall|i: int| 0 <= i < env.len() ==> frame_objs_wf(#[trigger] env[i], env.len())
}

/// A well-formed value stays well formed when the arena grows.
pub proof fn lemma_obj_wf_grow(v: ObjV, n: nat, m: nat)
    requires
        obj_wf(v, n),
        n <= m,
    ensures
        obj_wf(v, m),
    decreases v,
{
    match v {
        ObjV::Return { value } => match value {
            Some(b) => lemma_obj_wf_grow(*b, n, m),
            None => {},
        },
        ObjV::Array { elements } => {
            assert forall|i: int| 0 <= i < elements.len() implies obj_wf(
                #[trigger] elements[i],
                m,
            ) by {
                lemma_obj_wf_grow(elements[i], n, m);
            }
        },
        _ => {},
    }
}

/// In a well-formed arena, a frame's level never exceeds its handle.
pub proof fn lemma_env_level(env: Seq<FrameV>, i: int)
    requires
        env_wf(env),
        0 <= i < env.len(),
    ensures
        env[i].level <= i,
    decreases i,
{
    match env[i].outer {
        Some(j) => {
            lemma_env_level(env, j);
        },
        None => {},
    }
}

/// Name lookup in the arena: search the frame, then its outer chain.
pub open spec fn env_get(env: Seq<FrameV>, f: int, key: Seq<char>) -> Option<ObjV>
    decreases f,
{
    if f < 0 || f >= env.len() {
        None
    } else if env[f].binding.dom().contains(key) {
        Some(env[f].binding[key])
    } else {
        match env[f].outer {
            Some(j) => if 0 <= j < f {
                env_get(env, j, key)
            } else {
                None
            },
            None => None,
        }
    }
}

/// Searches a binding list for the latest entry with the given name.
fn get_local(binding: &Vec<(String, Object)>, key: &String) -> (r: Option<Object>)
    ensures
        match r {
            Some(o) => map_of(binding@).dom().contains(key@) && o@ == map_of(binding@)[key@],
            None => !map_of(binding@).dom().contains(key@),
        },
{
    let ghost full = binding@;
    proof {
        assert(full.take(full.len() as int) =~= full);
    }
    let mut j = binding.len();
    while j > 0
        invariant
            0 <= j <= full.len(),
            full == binding@,
            map_of(full).dom().contains(key@) == map_of(full.take(j as int)).dom().contains(key@),
            map_of(full).dom().contains(key@) ==> map_of(full)[key@] == map_of(
                full.take(j as int),
            )[key@],
        decreases j,
    {
        j = j - 1;
        proof {
            assert(full.take(j + 1 as int).drop_last() =~= full.take(j as int));
            assert(full.take(j + 1 as int).last() == full[j as int]);
            assert(map_of(full.take(j + 1 as int)) == map_of(full.take(j as int)).insert(
                full[j as int].0@,
                obj_v(full[j as int].1),
            ));
        }
        if binding[j].0 == *key {
            let o = binding[j].1.duplicate();
            return Some(o);
        }
    }
    proof {
        assert(full.take(0) =~= Seq::<(String, Object)>::empty());
    }
    None
}

impl Environment {
    /// A fresh environment holding only the global frame.
    pub fn new() -> (env: Self)
        ensures
            env@.len() == 1,
            env@[0].binding == Map::<Seq<char>, ObjV>::empty(),
            env@[0].outer is None,
            env@[0].level == 0,
            env_wf(env@),
            env_objs_wf(env@),
    {
        let mut frames: Vec<Frame> = Vec::new();
        frames.push(Frame { binding: Vec::new(), outer: None, level: 0 });
        let env = Environment { frames };
        proof {
            assert(env@ =~= seq![frame_v(env.frames@[0])]);
            assert(env@[0].binding =~= Map::<Seq<char>, ObjV>::empty());
        }
        env
    }

    /// Creates a child frame of `outer` and returns its handle.
    pub fn new_inner(&mut self, outer: usize) -> (h: usize)
        requires
            env_wf(old(self)@),
            outer < old(self)@.len(),
        ensures
            h == old(self)@.len(),
            final(self)@.len() == old(self)@.len() + 1,
            forall|i: int| 0 <= i < old(self)@.len() ==> final(self)@[i] == old(self)@[i],
            final(self)@[h as int].binding == Map::<Seq<char>, ObjV>::empty(),
            final(self)@[h as int].outer == Some(outer as int),
            final(self)@[h as int].level == old(self)@[outer as int].level + 1,
            env_wf(final(self)@),
            env_objs_wf(old(self)@) ==> env_objs_wf(final(self)@),
    {
        proof {
            lemma_env_level(self@, outer as int);
            assert(self@[outer as int] == frame_v(self.frames@[outer as int]));
        }
        let h = self.frames.len();
        let level = self.frames[outer].level + 1;
        self.frames.push(Frame { binding: Vec::new(), outer: Some(outer), level });
        proof {
            let oldv = old(self)@;
            let newv = self@;
            assert(newv =~= oldv.push(
                FrameV {
                    binding: Map::<Seq<char>, ObjV>::empty(),
                    outer: Some(outer as int),
                    level: level as int,
                },
            ));
            assert(newv[h as int].binding =~= Map::<Seq<char>, ObjV>::empty());
            assert(env_wf(newv));
            if env_objs_wf(oldv) {
                assert forall|i: int| 0 <= i < newv.len() implies frame_objs_wf(
                    #[trigger] newv[i],
                    newv.len(),
                ) by {
                    if i < oldv.len() {
                        assert(frame_objs_wf(oldv[i], oldv.len()));
                        assert forall|k: Seq<char>| newv[i].binding.dom().contains(k) implies
                            obj_wf(#[trigger] newv[i].binding[k], newv.len()) by {
                            lemma_obj_wf_grow(newv[i].binding[k], oldv.len(), newv.len());
                        }
                    }
                }
            }
        }
        h
    }

    /// Looks a name up, walking from the frame through its outer chain, and
    /// returns a copy of the bound value.
    pub fn get_clone(&self, frame: usize, key: &String) -> (r: Option<Object>)
        requires
            env_wf(self@),
            frame < self@.len(),
        ensures
            match r {
                Some(o) => env_get(self@, frame as int, key@) == Some(o@),
                None => env_get(self@, frame as int, key@) is None,
            },
    {
        let mut f = frame;
        loop
            invariant
                env_wf(self@),
                f < self@.len(),
                env_get(self@, frame as int, key@) == env_get(self@, f as int, key@),
            decreases f,
        {
            proof {
                assert(self@[f as int] == frame_v(self.frames@[f as int]));
            }
            let local = get_local(&self.frames[f].binding, key);
            match local {
                Some(o) => {
                    return Some(o);
                },
                None => {
                    match self.frames[f].outer {
                        Some(j) => {
                            f = j;
                        },
                        None => {
                            return None;
                        },
                    }
                },
            }
        }
    }

    /// Binds a name in the given frame (only), returning the value the name
    /// was bound to before in that frame, if any.
    pub fn set(&mut self, frame: usize, key: String, obj: Object) -> (prev: Option<Object>)
        requires
            frame < old(self)@.len(),
        ensures
            final(self)@.len() == old(self)@.len(),
            forall|i: int|
                0 <= i < old(self)@.len() && i != frame ==> final(self)@[i] == old(self)@[i],
            final(self)@[frame as int].binding == old(self)@[frame as int].binding.insert(
                key@,
                obj@,
            ),
            final(self)@[frame as int].outer == old(self)@[frame as int].outer,
            final(self)@[frame as int].level == old(self)@[frame as int].level,
            env_wf(old(self)@) ==> env_wf(final(self)@),
            match prev {
                Some(o) => old(self)@[frame as int].binding.dom().contains(key@) && o@ == old(
                    self,
                )@[frame as int].binding[key@],
                None => !old(self)@[frame as int].binding.dom().contains(key@),
            },
    {
        proof {
            assert(self@[frame as int] == frame_v(self.frames@[frame as int]));
        }
        let prev = get_local(&self.frames[frame].binding, &key);
        let ghost keyv = key@;
        let ghost objv = obj@;
        let ghost oldbind = self.frames@[frame as int].binding@;
        self.frames[frame].binding.push((key, obj));
        proof {
            let newbind = self.frames@[frame as int].binding@;
            assert(newbind.drop_last() =~= oldbind);
            assert(map_of(newbind) =~= map_of(oldbind).insert(keyv, objv));
            assert(self@ =~= old(self)@.update(
                frame as int,
                FrameV {
                    binding: map_of(oldbind).insert(keyv, objv),
                    outer: old(self)@[frame as int].outer,
                    level: old(self)@[frame as int].level,
                },
            ));
            if env_wf(old(self)@) {
                assert(env_wf(self@));
            }
        }
        prev
    }
}

} // verus!
