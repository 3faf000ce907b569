use vstd::prelude::*;

use crate::material::{DefaultMaterial, MaterialSlot};

verus! {

/// Why an object could not be added to a scene.
#[derive(Debug, Clone, Copy, PartialEq, Eq, Structural)]
pub enum SceneError {
    /// The material index names the reserved placeholder at index 0.
    PlaceholderMaterial,
    /// The material index is past the end of the material pool.
    UnknownMaterial,
}

/// `k` is the object a ray meets first, given each object's own hit distance
/// key (`None` for a miss): its key is the least of all present keys, and no
/// later object has that same key (on a tie the later object wins, as the
/// closest distance found so far is itself an admissible distance).
pub open spec fn is_nearest(keys: Seq<Option<u64>>, k: int) -> bool {
    &&& 0 <= k < keys.len()
    &&& keys[k] is Some
    &&& forall|i: int| 0 <= i < keys.len() && #[trigger] keys[i] is Some ==> keys[k]->0 <= keys[i]->0
    &&& forall|i: int| k < i < keys.len() && #[trigger] keys[i] is Some ==> keys[k]->0 < keys[i]->0
}

/// No object is hit at all.
pub open spec fn all_miss(keys: Seq<Option<u64>>) -> bool {
    forall|i: int| 0 <= i < keys.len() ==> #[trigger] keys[i] is None
}

/// The least of the present keys, if any.
pub open spec fn min_key(keys: Seq<Option<u64>>) -> Option<u64>
    decreases keys.len(),
{
    if keys.len() == 0 {
        None
    } else {
        let rest = min_key(keys.drop_last());
        match keys.last() {
            None => rest,
            Some(a) => match rest {
                None => Some(a),
                Some(b) => Some(if a <= b { a } else { b }),
            },
        }
    }
}

/// Picks, out of every object's own hit distance key, the object that a ray
/// meets first.
///
/// A key is any encoding of a hit distance that preserves its order (for
/// non-negative distances, the IEEE-754 bit pattern). One linear scan keeps
/// the closest distance so far and accepts each later hit that is no farther.
pub fn nearest_hit(keys: &Vec<Option<u64>>) -> (r: Option<usize>)
    ensures
        r is None <==> all_miss(keys@),
        r matches Some(k) ==> is_nearest(keys@, k as int),
{
    let mut best: Option<usize> = None;
    let mut closest: u64 = 0;
    let mut i: usize = 0;
    while i < keys.len()
        invariant
            0 <= i <= keys.len(),
            best is None <==> all_miss(keys@.take(i as int)),
            best matches Some(k) ==> {
                &&& is_nearest(keys@.take(i as int), k as int)
                &&& keys@[k as int] == Some(closest)
            },
        decreases keys.len() - i,
    {
        match keys[i] {
            Some(t) => {
                if best.is_none() || t <= closest {
                    best = Some(i);
                    closest = t;
                }
            },
            None => {},
        }
        i = i + 1;
        proof {
            let pre = keys@.take(i - 1);
            let cur = keys@.take(i as int);
            assert(forall|j: int| 0 <= j < i - 1 ==> cur[j] == #[trigger] pre[j]);
        }
    }
    proof {
        assert(keys@.take(i as int) =~= keys@);
    }
    best
}

/// The first object along a ray is the one with the least hit distance: the
/// key that the scan settles on is the minimum of all objects' own keys.
pub proof fn lemma_nearest_is_minimum(keys: Seq<Option<u64>>, k: int)
    requires
        is_nearest(keys, k),
    ensures
        min_key(keys) == Some(keys[k]->0),
{
    lemma_min_key_bounds(keys);
    let m = min_key(keys)->0;
    let j = choose|j: int| 0 <= j < keys.len() && keys[j] == Some(m);
    assert(keys[j] is Some);
}

/// Nothing is hit exactly when there is no least key.
pub proof fn lemma_no_hit_no_minimum(keys: Seq<Option<u64>>)
    ensures
        all_miss(keys) <==> min_key(keys) is None,
{
    lemma_min_key_bounds(keys);
    if min_key(keys) is Some {
        let m = min_key(keys)->0;
        let j = choose|j: int| 0 <= j < keys.len() && keys[j] == Some(m);
        assert(keys[j] is Some);
    }
}

proof fn lemma_min_key_bounds(keys: Seq<Option<u64>>)
    ensures
        min_key(keys) is None ==> all_miss(keys),
        min_key(keys) matches Some(m) ==> {
            &&& exists|j: int| 0 <= j < keys.len() && keys[j] == Some(m)
            &&& forall|i: int| 0 <= i < keys.len() && #[trigger] keys[i] is Some ==> m <= keys[i]->0
        },
    decreases keys.len(),
{
    if keys.len() > 0 {
        let rest = keys.drop_last();
        lemma_min_key_bounds(rest);
        assert(forall|i: int| 0 <= i < rest.len() ==> rest[i] == #[trigger] keys[i]);
        let last = keys.len() - 1;
        if min_key(rest) is Some {
            let b = min_key(rest)->0;
            let j = choose|j: int| 0 <= j < rest.len() && rest[j] == Some(b);
            assert(keys[j] == Some(b));
        }
        if min_key(keys) is None {
            assert forall|i: int| 0 <= i < keys.len() implies #[trigger] keys[i] is None by {
                if i < last {
                    assert(rest[i] is None);
                }
            }
        }
    }
}

/// A scene: an ordered list of shapes, each bound to a material by its index
/// in a shared pool. Index 0 of the pool holds the placeholder; every object is
/// bound to a real material.
pub struct World<S, M> {
    objects: Vec<(S, usize)>,
    materials: Vec<MaterialSlot<M>>,
}

impl<S, M> World<S, M> {
    /// The shapes, in the order they were added.
    pub closed spec fn shapes(&self) -> Seq<S> {
        self.objects@.map_values(|o: (S, usize)| o.0)
    }

    /// For each object, the index of its material in the pool.
    pub closed spec fn bindings(&self) -> Seq<usize> {
        self.objects@.map_values(|o: (S, usize)| o.1)
    }

    /// The material pool.
    pub closed spec fn pool(&self) -> Seq<MaterialSlot<M>> {
        self.materials@
    }

    /// The placeholder is at index 0 and nowhere else, and every object is
    /// bound to a real material of the pool.
    pub open spec fn wf(&self) -> bool {
        &&& self.shapes().len() == self.bindings().len()
        &&& self.pool().len() >= 1
        &&& self.pool()[0] is Unassigned
        &&& forall|m: int| 1 <= m < self.pool().len() ==> #[trigger] self.pool()[m] is Assigned
        &&& forall|k: int|
            0 <= k < self.bindings().len() ==> 1 <= #[trigger] self.bindings()[k] < self.pool().len()
    }

    /// An empty scene whose pool holds only the placeholder.
    pub fn new() -> (r: Self)
        ensures
            r.wf(),
            r.shapes() == Seq::<S>::empty(),
            r.pool() == seq![MaterialSlot::<M>::Unassigned(DefaultMaterial {})],
    {
        let r = World { objects: Vec::new(), materials: vec![MaterialSlot::Unassigned(DefaultMaterial {})] };
        proof {
            assert(r.shapes() =~= Seq::<S>::empty());
            assert(r.bindings() =~= Seq::<usize>::empty());
        }
        r
    }

    /// Appends a material to the pool; its index is the pool's former length.
    pub fn add_material(&mut self, material: M)
        requires
            old(self).wf(),
        ensures
            final(self).wf(),
            final(self).pool() == old(self).pool().push(MaterialSlot::Assigned(material)),
            final(self).shapes() == old(self).shapes(),
            final(self).bindings() == old(self).bindings(),
    {
        self.materials.push(MaterialSlot::Assigned(material));
    }

    /// Appends an object bound to the material at index `material`, and
    /// returns the object's index. The placeholder and indices past the end of
    /// the pool are refused, and the scene is then left as it was.
    pub fn add_object(&mut self, shape: S, material: usize) -> (r: Result<usize, SceneError>)
        requires
            old(self).wf(),
        ensures
            final(self).wf(),
            final(self).pool() == old(self).pool(),
            material == 0 ==> r == Err::<usize, SceneError>(SceneError::PlaceholderMaterial),
            material >= old(self).pool().len() ==> r == Err::<usize, SceneError>(SceneError::UnknownMaterial),
            1 <= material < old(self).pool().len() ==> {
                &&& r == Ok::<usize, SceneError>(old(self).shapes().len() as usize)
                &&& final(self).shapes() == old(self).shapes().push(shape)
                &&& final(self).bindings() == old(self).bindings().push(material)
            },
            r is Err ==> {
                &&& final(self).shapes() == old(self).shapes()
                &&& final(self).bindings() == old(self).bindings()
            },
    {
        if material == 0 {
            return Err(SceneError::PlaceholderMaterial);
        }
        if material >= self.materials.len() {
            return Err(SceneError::UnknownMaterial);
        }
        let index = self.objects.len();
        self.objects.push((shape, material));
        proof {
            assert(self.shapes() =~= old(self).shapes().push(shape));
            assert(self.bindings() =~= old(self).bindings().push(material));
        }
        Ok(index)
    }

    /// The number of objects.
    pub fn len(&self) -> (r: usize)
        ensures
            r == self.shapes().len(),
    {
        self.objects.len()
    }

    /// The number of entries of the material pool, the placeholder included.
    pub fn material_count(&self) -> (r: usize)
        ensures
            r == self.pool().len(),
    {
        self.materials.len()
    }

    /// The shape of object `k`.
    pub fn shape(&self, k: usize) -> (r: &S)
        requires
            k < self.shapes().len(),
        ensures
            *r == self.shapes()[k as int],
    {
        &self.objects[k].0
    }

    /// The index of the material that object `k` is bound to.
    pub fn material_index(&self, k: usize) -> (r: usize)
        requires
            self.wf(),
            k < self.shapes().len(),
        ensures
            r == self.bindings()[k as int],
            1 <= r < self.pool().len(),
    {
        self.objects[k].1
    }

    /// The pool entry at index `m`.
    pub fn material(&self, m: usize) -> (r: &MaterialSlot<M>)
        requires
            m < self.pool().len(),
        ensures
            *r == self.pool()[m as int],
    {
        &self.materials[m]
    }

    /// Out of every object's own hit distance key (in object order), the
    /// object that the ray meets first and the index of its material; `None`
    /// when no object is hit.
    pub fn hit(&self, keys: &Vec<Option<u64>>) -> (r: Option<(usize, usize)>)
        requires
            self.wf(),
            keys@.len() == self.shapes().len(),
        ensures
            r is None <==> all_miss(keys@),
            r matches Some((k, m)) ==> {
                &&& is_nearest(keys@, k as int)
                &&& m == self.bindings()[k as int]
                &&& self.pool()[m as int] is Assigned
            },
    {
        match nearest_hit(keys) {
            None => None,
            Some(k) => {
                let m = self.objects[k].1;
                proof {
                    assert(self.bindings()[k as int] == m);
                }
                Some((k, m))
            },
        }
    }
}

} // verus!
