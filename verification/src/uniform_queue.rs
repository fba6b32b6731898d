//! Named uniforms of a shader, and the ShaderToy built-ins packed for the GPU.
use vstd::prelude::*;

use crate::sampler2d::Sampler2D;

verus! {

/// The kind of value a uniform holds.
#[derive(Debug, Clone, Copy, PartialEq, Eq, Hash, Structural)]
pub enum UniformType {
    Bool,
    Int,
    Float,
    Vec2,
    Vec3,
    Vec4,
    Mat2,
    Mat3,
    Mat4,
    Sampler2D,
}

/// A uniform's payload. Each floating-point component is held as its IEEE-754
/// single-precision bit pattern (what `f32::to_bits` gives); the queue stores
/// and copies these bits and never computes with them.
pub enum UniformValue {
    Bool(bool),
    Int(i32),
    Float(u32),
    Vec2([u32; 2]),
    Vec3([u32; 3]),
    Vec4([u32; 4]),
    Mat2([u32; 4]),
    Mat3([u32; 9]),
    Mat4([u32; 16]),
    Sampler2D(Sampler2D),
}

impl UniformValue {
    /// The kind of this value.
    pub open spec fn kind(&self) -> UniformType {
        match self {
            UniformValue::Bool(_) => UniformType::Bool,
            UniformValue::Int(_) => UniformType::Int,
            UniformValue::Float(_) => UniformType::Float,
            UniformValue::Vec2(_) => UniformType::Vec2,
            UniformValue::Vec3(_) => UniformType::Vec3,
            UniformValue::Vec4(_) => UniformType::Vec4,
            UniformValue::Mat2(_) => UniformType::Mat2,
            UniformValue::Mat3(_) => UniformType::Mat3,
            UniformValue::Mat4(_) => UniformType::Mat4,
            UniformValue::Sampler2D(_) => UniformType::Sampler2D,
        }
    }

    /// Return the type discriminant for this value.
    pub fn uniform_type(&self) -> (t: UniformType)
        ensures
            t == self.kind(),
    {
        match self {
            UniformValue::Bool(_) => UniformType::Bool,
            UniformValue::Int(_) => UniformType::Int,
            UniformValue::Float(_) => UniformType::Float,
            UniformValue::Vec2(_) => UniformType::Vec2,
            UniformValue::Vec3(_) => UniformType::Vec3,
            UniformValue::Vec4(_) => UniformType::Vec4,
            UniformValue::Mat2(_) => UniformType::Mat2,
            UniformValue::Mat3(_) => UniformType::Mat3,
            UniformValue::Mat4(_) => UniformType::Mat4,
            UniformValue::Sampler2D(_) => UniformType::Sampler2D,
        }
    }
}

// ---------------------------------------------------------------------------
// Name lookup over a sequence of (name, value) entries
// ---------------------------------------------------------------------------

/// Some entry of `e` is named `name`.
pub open spec fn has_name<V>(e: Seq<(Seq<char>, V)>, name: Seq<char>) -> bool {
    exists|i: int| 0 <= i < e.len() && #[trigger] e[i].0 == name
}

/// The position of the entry named `name` (meaningful when `has_name`).
pub open spec fn index_of<V>(e: Seq<(Seq<char>, V)>, name: Seq<char>) -> int {
    choose|i: int| 0 <= i < e.len() && #[trigger] e[i].0 == name
}

/// No two entries share a name.
pub open spec fn unique_names<V>(e: Seq<(Seq<char>, V)>) -> bool {
    forall|i: int, j: int|
        0 <= i < e.len() && 0 <= j < e.len() && i != j ==> #[trigger] e[i].0 != #[trigger] e[j].0
}

/// The entries read as a map from name to value.
pub open spec fn as_map<V>(e: Seq<(Seq<char>, V)>) -> Map<Seq<char>, V> {
    Map::new(|k: Seq<char>| has_name(e, k), |k: Seq<char>| e[index_of(e, k)].1)
}

/// With unique names, the entry at `i` is the one `index_of` finds.
pub proof fn lemma_index_of<V>(e: Seq<(Seq<char>, V)>, i: int)
    requires
        unique_names(e),
        0 <= i < e.len(),
    ensures
        has_name(e, e[i].0),
        index_of(e, e[i].0) == i,
        as_map(e).contains_key(e[i].0),
        as_map(e)[e[i].0] == e[i].1,
{
    let k = e[i].0;
    assert(e[i].0 == k);
    let j = index_of(e, k);
    assert(0 <= j < e.len() && e[j].0 == k);
}

/// Appending an entry under a fresh name inserts it into the map.
pub proof fn lemma_as_map_push<V>(e: Seq<(Seq<char>, V)>, k: Seq<char>, v: V)
    requires
        unique_names(e),
        !has_name(e, k),
    ensures
        unique_names(e.push((k, v))),
        as_map(e.push((k, v))) == as_map(e).insert(k, v),
{
    let n = e.push((k, v));
    assert forall|i: int, j: int|
        0 <= i < n.len() && 0 <= j < n.len() && i != j implies #[trigger] n[i].0 != #[trigger] n[j].0 by {
        if i < e.len() && j < e.len() {
            assert(e[i].0 != e[j].0);
        } else if i < e.len() {
            assert(e[i].0 == n[i].0);
        } else {
            assert(e[j].0 == n[j].0);
        }
    }
    assert forall|q: Seq<char>| #[trigger] as_map(n).contains_key(q) == as_map(e).insert(k, v).contains_key(q) by {
        if has_name(e, q) {
            let i = index_of(e, q);
            assert(n[i].0 == q);
        }
        if has_name(n, q) && q != k {
            let i = index_of(n, q);
            assert(e[i].0 == q);
        }
        if q == k {
            assert(n[e.len() as int].0 == k);
        }
    }
    assert forall|q: Seq<char>| as_map(n).contains_key(q) implies #[trigger] as_map(n)[q] == as_map(e).insert(k, v)[q] by {
        if q == k {
            lemma_index_of(n, e.len() as int);
        } else {
            let i = index_of(e, q);
            lemma_index_of(e, i);
            assert(n[i] == e[i]);
            lemma_index_of(n, i);
        }
    }
    assert(as_map(n) =~= as_map(e).insert(k, v));
}

/// Removing the entry at `i` removes its name from the map.
pub proof fn lemma_as_map_remove<V>(e: Seq<(Seq<char>, V)>, i: int)
    requires
        unique_names(e),
        0 <= i < e.len(),
    ensures
        unique_names(e.remove(i)),
        as_map(e.remove(i)) == as_map(e).remove(e[i].0),
{
    let n = e.remove(i);
    let k = e[i].0;
    assert forall|a: int, b: int|
        0 <= a < n.len() && 0 <= b < n.len() && a != b implies #[trigger] n[a].0 != #[trigger] n[b].0 by {
        let a2 = if a < i { a } else { a + 1 };
        let b2 = if b < i { b } else { b + 1 };
        assert(n[a] == e[a2] && n[b] == e[b2]);
        assert(e[a2].0 != e[b2].0);
    }
    assert forall|q: Seq<char>| #[trigger] as_map(n).contains_key(q) == as_map(e).remove(k).contains_key(q) by {
        if has_name(n, q) {
            let a = index_of(n, q);
            let a2 = if a < i { a } else { a + 1 };
            assert(n[a] == e[a2]);
            assert(e[a2].0 == q);
            assert(a2 != i);
        }
        if has_name(e, q) && q != k {
            let a2 = index_of(e, q);
            assert(a2 != i);
            let a = if a2 < i { a2 } else { a2 - 1 };
            assert(n[a] == e[a2]);
            assert(n[a].0 == q);
        }
    }
    assert forall|q: Seq<char>| as_map(n).contains_key(q) implies #[trigger] as_map(n)[q] == as_map(e).remove(k)[q] by {
        let a = index_of(n, q);
        let a2 = if a < i { a } else { a + 1 };
        assert(n[a] == e[a2]);
        lemma_index_of(n, a);
        lemma_index_of(e, a2);
    }
    assert(as_map(n) =~= as_map(e).remove(k));
}

/// Overwriting the value of the entry at `i` overwrites it in the map.
pub proof fn lemma_as_map_update<V>(e: Seq<(Seq<char>, V)>, i: int, v: V)
    requires
        unique_names(e),
        0 <= i < e.len(),
    ensures
        unique_names(e.update(i, (e[i].0, v))),
        as_map(e.update(i, (e[i].0, v))) == as_map(e).insert(e[i].0, v),
{
    let k = e[i].0;
    let n = e.update(i, (k, v));
    assert forall|a: int, b: int|
        0 <= a < n.len() && 0 <= b < n.len() && a != b implies #[trigger] n[a].0 != #[trigger] n[b].0 by {
        assert(n[a].0 == e[a].0 && n[b].0 == e[b].0);
    }
    assert forall|q: Seq<char>| #[trigger] as_map(n).contains_key(q) == as_map(e).insert(k, v).contains_key(q) by {
        if has_name(n, q) {
            let a = index_of(n, q);
            assert(e[a].0 == q);
        }
        if has_name(e, q) {
            let a = index_of(e, q);
            assert(n[a].0 == q);
        }
        if q == k {
            assert(n[i].0 == k);
        }
    }
    assert forall|q: Seq<char>| as_map(n).contains_key(q) implies #[trigger] as_map(n)[q] == as_map(e).insert(k, v)[q] by {
        let a = index_of(n, q);
        lemma_index_of(n, a);
        if a != i {
            assert(n[a] == e[a]);
            lemma_index_of(e, a);
        }
    }
    assert(as_map(n) =~= as_map(e).insert(k, v));
}

/// The value under `name`, if any.
pub open spec fn lookup(m: Map<Seq<char>, UniformValue>, name: Seq<char>) -> Option<UniformValue> {
    if m.contains_key(name) {
        Some(m[name])
    } else {
        None
    }
}

/// The uniforms after adding `v` under `name`: unchanged when the name is taken.
pub open spec fn add_result(m: Map<Seq<char>, UniformValue>, name: Seq<char>, v: UniformValue) -> Map<Seq<char>, UniformValue> {
    if m.contains_key(name) {
        m
    } else {
        m.insert(name, v)
    }
}

/// The uniforms after setting `name` to `v`: unchanged when there is no such name.
pub open spec fn set_result(m: Map<Seq<char>, UniformValue>, name: Seq<char>, v: UniformValue) -> Map<Seq<char>, UniformValue> {
    if m.contains_key(name) {
        m.insert(name, v)
    } else {
        m
    }
}

// ---------------------------------------------------------------------------
// PushConstants
// ---------------------------------------------------------------------------

/// The ShaderToy built-ins as the shader's uniform block lays them out:
/// iMouse (vec4), iResolution (vec3), iTime (float), 32 bytes in all.
/// Components are IEEE-754 single-precision bit patterns.
#[derive(Debug, Clone, Copy)]
pub struct PushConstants {
    pub i_mouse: [u32; 4],
    pub i_resolution: [u32; 3],
    pub i_time: u32,
}

/// The four little-endian bytes of `w`.
pub open spec fn u32_le_bytes(w: u32) -> Seq<u8> {
    seq![(w % 256) as u8, ((w / 256) % 256) as u8, ((w / 65536) % 256) as u8, (w / 16777216) as u8]
}

/// The little-endian bytes of each word, one word after another.
pub open spec fn words_le_bytes(words: Seq<u32>) -> Seq<u8>
    decreases words.len(),
{
    if words.len() == 0 {
        Seq::empty()
    } else {
        words_le_bytes(words.drop_last()) + u32_le_bytes(words.last())
    }
}

pub proof fn lemma_words_le_bytes_len(words: Seq<u32>)
    ensures
        words_le_bytes(words).len() == 4 * words.len(),
    decreases words.len(),
{
    if words.len() > 0 {
        lemma_words_le_bytes_len(words.drop_last());
    }
}

impl PushConstants {
    /// The eight 32-bit words in layout order.
    pub open spec fn words(&self) -> Seq<u32> {
        self.i_mouse@ + self.i_resolution@ + seq![self.i_time]
    }

    /// The block's bytes as the GPU reads them (little-endian words in layout order).
    pub fn as_bytes(&self) -> (b: Vec<u8>)
        ensures
            b@ == words_le_bytes(self.words()),
            b@.len() == 32,
    {
        let words: [u32; 8] = [
            self.i_mouse[0],
            self.i_mouse[1],
            self.i_mouse[2],
            self.i_mouse[3],
            self.i_resolution[0],
            self.i_resolution[1],
            self.i_resolution[2],
            self.i_time,
        ];
        assert(words@ =~= self.words());
        let mut b: Vec<u8> = Vec::with_capacity(32);
        let mut i: usize = 0;
        while i < 8
            invariant
                i <= 8,
                words@ == self.words(),
                b@ == words_le_bytes(words@.subrange(0, i as int)),
            decreases 8 - i,
        {
            let w = words[i];
            b.push((w % 256) as u8);
            b.push(((w / 256) % 256) as u8);
            b.push(((w / 65536) % 256) as u8);
            b.push((w / 16777216) as u8);
            assert(words@.subrange(0, i + 1).drop_last() =~= words@.subrange(0, i as int));
            i = i + 1;
        }
        assert(words@.subrange(0, 8) =~= words@);
        proof {
            lemma_words_le_bytes_len(self.words());
        }
        b
    }
}

impl Default for PushConstants {
    /// All components zero.
    fn default() -> (pc: Self)
        ensures
            pc.i_mouse@ == seq![0u32, 0, 0, 0],
            pc.i_resolution@ == seq![0u32, 0, 0],
            pc.i_time == 0,
    {
        let pc = PushConstants { i_mouse: [0, 0, 0, 0], i_resolution: [0, 0, 0], i_time: 0 };
        assert(pc.i_mouse@ =~= seq![0u32, 0, 0, 0]);
        assert(pc.i_resolution@ =~= seq![0u32, 0, 0]);
        pc
    }
}

// ---------------------------------------------------------------------------
// UniformQueue
// ---------------------------------------------------------------------------

/// The uniforms of a shader, each under a distinct name, in the order they
/// were added.
pub struct UniformQueue {
    uniforms: Vec<(String, UniformValue)>,
}

/// The value under `name` if it is a vec4, else zeros.
pub open spec fn vec4_or_zero(m: Map<Seq<char>, UniformValue>, name: Seq<char>) -> Seq<u32> {
    if m.contains_key(name) {
        match m[name] {
            UniformValue::Vec4(v) => v@,
            _ => seq![0u32, 0, 0, 0],
        }
    } else {
        seq![0u32, 0, 0, 0]
    }
}

/// The value under `name` if it is a vec3, else zeros.
pub open spec fn vec3_or_zero(m: Map<Seq<char>, UniformValue>, name: Seq<char>) -> Seq<u32> {
    if m.contains_key(name) {
        match m[name] {
            UniformValue::Vec3(v) => v@,
            _ => seq![0u32, 0, 0],
        }
    } else {
        seq![0u32, 0, 0]
    }
}

/// The value under `name` if it is a float, else zero.
pub open spec fn float_or_zero(m: Map<Seq<char>, UniformValue>, name: Seq<char>) -> u32 {
    if m.contains_key(name) {
        match m[name] {
            UniformValue::Float(v) => v,
            _ => 0u32,
        }
    } else {
        0u32
    }
}

/// The (name, value) entries of a vector of named uniforms.
pub open spec fn entries_of(v: Seq<(String, UniformValue)>) -> Seq<(Seq<char>, UniformValue)> {
    v.map_values(|e: (String, UniformValue)| (e.0@, e.1))
}

impl View for UniformQueue {
    type V = Map<Seq<char>, UniformValue>;

    open spec fn view(&self) -> Map<Seq<char>, UniformValue> {
        as_map(self.entries())
    }
}

impl UniformQueue {
    /// The (name, value) entries in order.
    pub closed spec fn entries(&self) -> Seq<(Seq<char>, UniformValue)> {
        entries_of(self.uniforms@)
    }

    /// No two uniforms share a name.
    #[verifier::type_invariant]
    spec fn names_distinct(&self) -> bool {
        unique_names(self.entries())
    }

    /// An empty queue.
    pub fn new() -> (q: Self)
        ensures
            q.entries() == Seq::<(Seq<char>, UniformValue)>::empty(),
            q@ == Map::<Seq<char>, UniformValue>::empty(),
    {
        let q = UniformQueue { uniforms: Vec::new() };
        assert(q.entries() =~= Seq::<(Seq<char>, UniformValue)>::empty());
        assert(q@ =~= Map::<Seq<char>, UniformValue>::empty());
        q
    }

    /// Move the entries out, leaving the queue empty for the time they are
    /// worked on.
    fn take_items(&mut self) -> (items: Vec<(String, UniformValue)>)
        ensures
            entries_of(items@) == old(self).entries(),
            unique_names(entries_of(items@)),
    {
        proof {
            use_type_invariant(&*self);
        }
        let mut items: Vec<(String, UniformValue)> = Vec::new();
        std::mem::swap(&mut items, &mut self.uniforms);
        items
    }

    /// Position of the uniform named `name`, if there is one.
    fn find(&self, name: &str) -> (r: Option<usize>)
        ensures
            r is None <==> !self@.contains_key(name@),
            r matches Some(i) ==> i < self.uniforms@.len() && self.entries()[i as int].0 == name@
                && index_of(self.entries(), name@) == i,
    {
        proof {
            use_type_invariant(self);
        }
        let key = name.to_owned();
        let n = self.uniforms.len();
        let mut i: usize = 0;
        while i < n
            invariant
                n == self.uniforms@.len(),
                unique_names(self.entries()),
                i <= n,
                key@ == name@,
                forall|j: int| 0 <= j < i ==> self.entries()[j].0 != name@,
            decreases n - i,
        {
            if self.uniforms[i].0 == key {
                proof {
                    lemma_index_of(self.entries(), i as int);
                }
                return Some(i);
            }
            i = i + 1;
        }
        proof {
            if has_name(self.entries(), name@) {
                let j = index_of(self.entries(), name@);
                assert(self.entries()[j].0 == name@);
            }
        }
        None
    }

    /// Look up a uniform value by name.
    pub fn get_value(&self, name: &str) -> (r: Option<&UniformValue>)
        ensures
            r is Some <==> self@.contains_key(name@),
            r matches Some(v) ==> Some(*v) == lookup(self@, name@),
    {
        match self.find(name) {
            Some(i) => Some(&self.uniforms[i].1),
            None => None,
        }
    }

    /// Look up a Sampler2D uniform by name.
    pub fn get_sampler2d(&self, name: &str) -> (r: Option<&Sampler2D>)
        ensures
            r is Some <==> (self@.contains_key(name@) && self@[name@] is Sampler2D),
            r matches Some(s) ==> self@[name@] == UniformValue::Sampler2D(*s),
    {
        match self.find(name) {
            Some(i) => match &self.uniforms[i].1 {
                UniformValue::Sampler2D(s) => Some(s),
                _ => None,
            },
            None => None,
        }
    }

    /// Add a uniform. Returns `false`, and changes nothing, if a uniform named
    /// `name` already exists.
    pub fn add_uniform(&mut self, name: &str, value: UniformValue) -> (added: bool)
        ensures
            added == !old(self)@.contains_key(name@),
            added ==> final(self).entries() == old(self).entries().push((name@, value)),
            !added ==> final(self).entries() == old(self).entries(),
            final(self)@ == add_result(old(self)@, name@, value),
    {
        match self.find(name) {
            Some(_) => false,
            None => {
                let ghost e = self.entries();
                let ghost v = value;
                let mut items = self.take_items();
                items.push((name.to_owned(), value));
                proof {
                    assert(entries_of(items@) =~= e.push((name@, v)));
                    lemma_as_map_push(e, name@, v);
                }
                self.uniforms = items;
                true
            },
        }
    }

    /// Remove a uniform. Returns `false`, and changes nothing, if the name was
    /// not found. A removed Sampler2D has its GPU objects released.
    pub fn remove_uniform(&mut self, name: &str) -> (removed: bool)
        ensures
            removed == old(self)@.contains_key(name@),
            removed ==> final(self).entries() == old(self).entries().remove(
                index_of(old(self).entries(), name@),
            ),
            !removed ==> final(self).entries() == old(self).entries(),
            final(self)@ == old(self)@.remove(name@),
    {
        match self.find(name) {
            Some(i) => {
                let ghost e = self.entries();
                let mut items = self.take_items();
                let (_, value) = items.remove(i);
                proof {
                    assert(entries_of(items@) =~= e.remove(i as int));
                    lemma_as_map_remove(e, i as int);
                }
                self.uniforms = items;
                match value {
                    UniformValue::Sampler2D(mut s) => {
                        s.destroy();
                    },
                    _ => {},
                }
                true
            },
            None => {
                assert(self@ =~= self@.remove(name@));
                false
            },
        }
    }

    /// Overwrite the value of an existing uniform. Returns `false`, and changes
    /// nothing, if the name was not found.
    pub fn set_uniform_value(&mut self, name: &str, value: UniformValue) -> (set: bool)
        ensures
            set == old(self)@.contains_key(name@),
            set ==> final(self).entries() == old(self).entries().update(
                index_of(old(self).entries(), name@),
                (name@, value),
            ),
            !set ==> final(self).entries() == old(self).entries(),
            final(self)@ == set_result(old(self)@, name@, value),
    {
        match self.find(name) {
            Some(i) => {
                let ghost e = self.entries();
                let ghost v = value;
                let mut items = self.take_items();
                let key = items[i].0.clone();
                items.set(i, (key, value));
                proof {
                    assert(entries_of(items@) =~= e.update(i as int, (name@, v)));
                    lemma_as_map_update(e, i as int, v);
                }
                self.uniforms = items;
                true
            },
            None => false,
        }
    }

    /// The ShaderToy built-ins from the stored iMouse (vec4), iResolution
    /// (vec3) and iTime (float) uniforms; zero where a uniform is missing or
    /// of another type.
    pub fn get_push_constants(&self) -> (pc: PushConstants)
        ensures
            pc.i_mouse@ == vec4_or_zero(self@, "iMouse"@),
            pc.i_resolution@ == vec3_or_zero(self@, "iResolution"@),
            pc.i_time == float_or_zero(self@, "iTime"@),
    {
        let mut pc = PushConstants::default();
        if let Some(UniformValue::Vec4(v)) = self.get_value("iMouse") {
            pc.i_mouse = *v;
        }
        if let Some(UniformValue::Vec3(v)) = self.get_value("iResolution") {
            pc.i_resolution = *v;
        }
        if let Some(UniformValue::Float(v)) = self.get_value("iTime") {
            pc.i_time = *v;
        }
        pc
    }

    /// Replace the pixels of the Sampler2D uniform `name` (see
    /// `Sampler2D::replace_texture`, which keeps the sampler when the pixels
    /// are missing). Returns `false`, and changes nothing, if there is no such
    /// uniform or it is not a Sampler2D.
    pub fn replace_sampler2d(&mut self, name: &str, w: u32, h: u32, raw_data: &[u8]) -> (done: bool)
        ensures
            done == (old(self)@.contains_key(name@) && old(self)@[name@] is Sampler2D),
            !done ==> final(self).entries() == old(self).entries(),
            done ==> final(self).entries() == old(self).entries().update(
                index_of(old(self).entries(), name@),
                (name@, final(self)@[name@]),
            ),
            done ==> final(self)@ == old(self)@.insert(name@, final(self)@[name@]),
            done ==> (old(self)@[name@] matches UniformValue::Sampler2D(s) && final(self)@[name@] matches UniformValue::Sampler2D(t)
                && s.replaced(t, w, h, raw_data@)),
    {
        match self.find(name) {
            Some(i) => {
                let ghost e = self.entries();
                let is_sampler = match &self.uniforms[i].1 {
                    UniformValue::Sampler2D(_) => true,
                    _ => false,
                };
                if !is_sampler {
                    return false;
                }
                let mut items = self.take_items();
                let (key, value) = items.remove(i);
                match value {
                    UniformValue::Sampler2D(mut s) => {
                        s.replace_texture(w, h, raw_data);
                        let ghost t = s;
                        items.insert(i, (key, UniformValue::Sampler2D(s)));
                        proof {
                            assert(entries_of(items@) =~= e.update(i as int, (name@, UniformValue::Sampler2D(t))));
                            lemma_as_map_update(e, i as int, UniformValue::Sampler2D(t));
                            lemma_index_of(entries_of(items@), i as int);
                        }
                        self.uniforms = items;
                        true
                    },
                    _ => {
                        proof { assert(false); }
                        false
                    },
                }
            },
            None => false,
        }
    }

    /// The number of uniforms.
    pub fn len(&self) -> (n: usize)
        ensures
            n == self.entries().len(),
    {
        self.uniforms.len()
    }

    /// The name of the uniform at position `i` (in the order they were
    /// added), if there is one.
    pub fn name_at(&self, i: usize) -> (r: Option<&str>)
        ensures
            r is Some <==> i < self.entries().len(),
            r matches Some(n) ==> n@ == self.entries()[i as int].0,
    {
        if i < self.uniforms.len() {
            Some(self.uniforms[i].0.as_str())
        } else {
            None
        }
    }

    /// The Sampler2D at position `i`, if the uniform there is one.
    pub fn sampler_at(&self, i: usize) -> (r: Option<&Sampler2D>)
        ensures
            r is Some <==> (i < self.entries().len() && self.entries()[i as int].1 is Sampler2D),
            r matches Some(s) ==> self.entries()[i as int].1 == UniformValue::Sampler2D(*s),
    {
        if i < self.uniforms.len() {
            match &self.uniforms[i].1 {
                UniformValue::Sampler2D(s) => Some(s),
                _ => None,
            }
        } else {
            None
        }
    }

    /// Hand the GPU objects made from its pixels to the Sampler2D at position
    /// `i` (see `Sampler2D::attach_gpu_objects`). Returns `false`, and changes
    /// nothing, if the uniform there is not a Sampler2D.
    pub fn attach_sampler_objects(
        &mut self,
        i: usize,
        texture: wgpu::Texture,
        view: wgpu::TextureView,
        sampler: wgpu::Sampler,
    ) -> (done: bool)
        ensures
            done == (i < old(self).entries().len() && old(self).entries()[i as int].1 is Sampler2D),
            !done ==> final(self).entries() == old(self).entries(),
            done ==> final(self).entries().len() == old(self).entries().len(),
            done ==> forall|j: int| 0 <= j < old(self).entries().len() && j != i ==>
                #[trigger] final(self).entries()[j] == old(self).entries()[j],
            done ==> final(self).entries()[i as int].0 == old(self).entries()[i as int].0,
            done ==> (old(self).entries()[i as int].1 matches UniformValue::Sampler2D(s)
                && final(self).entries()[i as int].1 matches UniformValue::Sampler2D(t)
                && t.texture == Some(texture) && t.texture_view == Some(view) && t.sampler == Some(sampler)
                && t.data@ == Seq::<u8>::empty() && t.width == s.width && t.height == s.height
                && t.n_texture == s.n_texture),
    {
        if i >= self.uniforms.len() {
            return false;
        }
        let is_sampler = match &self.uniforms[i].1 {
            UniformValue::Sampler2D(_) => true,
            _ => false,
        };
        if !is_sampler {
            return false;
        }
        let ghost e = self.entries();
        let mut items = self.take_items();
        let (key, value) = items.remove(i);
        match value {
            UniformValue::Sampler2D(mut s) => {
                s.attach_gpu_objects(texture, view, sampler);
                let ghost t = s;
                items.insert(i, (key, UniformValue::Sampler2D(s)));
                proof {
                    assert(entries_of(items@) =~= e.update(i as int, (e[i as int].0, UniformValue::Sampler2D(t))));
                    lemma_as_map_update(e, i as int, UniformValue::Sampler2D(t));
                }
                self.uniforms = items;
                true
            },
            _ => {
                proof { assert(false); }
                false
            },
        }
    }

    /// Every Sampler2D uniform that has a texture slot and a texture view,
    /// with its slot, in order.
    pub fn get_all_sampler2d_textures(&self) -> (r: Vec<(i32, &Sampler2D)>)
        ensures
            r@.map_values(|p: (i32, &Sampler2D)| (p.0, *p.1)) == bound_samplers(self.entries()),
    {
        let ghost e = self.entries();
        let n = self.uniforms.len();
        let mut result: Vec<(i32, &Sampler2D)> = Vec::new();
        let mut i: usize = 0;
        proof {
            assert(e.subrange(0, 0) =~= Seq::<(Seq<char>, UniformValue)>::empty());
        }
        while i < n
            invariant
                n == e.len(),
                e == self.entries(),
                i <= n,
                result@.map_values(|p: (i32, &Sampler2D)| (p.0, *p.1)) == bound_samplers(e.subrange(0, i as int)),
            decreases n - i,
        {
            proof {
                assert(e.subrange(0, i + 1).drop_last() =~= e.subrange(0, i as int));
                assert(self.uniforms@[i as int].1 == e[i as int].1);
            }
            let ghost before = result@;
            match &self.uniforms[i].1 {
                UniformValue::Sampler2D(s) => {
                    if s.n_texture >= 0 && s.texture_view.is_some() {
                        result.push((s.n_texture, s));
                        assert(result@.map_values(|p: (i32, &Sampler2D)| (p.0, *p.1)) =~= before.map_values(
                            |p: (i32, &Sampler2D)| (p.0, *p.1),
                        ).push((s.n_texture, *s)));
                    }
                },
                _ => {},
            }
            i = i + 1;
        }
        proof {
            assert(e.subrange(0, n as int) =~= e);
        }
        result
    }

    /// Whether the slots `number_sampler2d` gives fit in an `i32`.
    pub fn numbering_fits(&self) -> (fits: bool)
        ensures
            fits == numbering_fits(self.entries()),
    {
        let base = self.slot_base();
        let ghost e = self.entries();
        let n = self.uniforms.len();
        let mut count: usize = 0;
        let mut i: usize = 0;
        proof {
            assert(e.subrange(0, 0) =~= Seq::<(Seq<char>, UniformValue)>::empty());
        }
        while i < n
            invariant
                n == e.len(),
                e == self.entries(),
                i <= n,
                count == count_needing(e.subrange(0, i as int)),
                count <= i,
                0 <= base <= i32::MAX as int + 1,
            decreases n - i,
        {
            proof {
                assert(e.subrange(0, i + 1).drop_last() =~= e.subrange(0, i as int));
                assert(self.uniforms@[i as int].1 == e[i as int].1);
            }
            match &self.uniforms[i].1 {
                UniformValue::Sampler2D(s) => {
                    if s.data.len() > 0 && s.n_texture == -1 {
                        count = count + 1;
                    }
                },
                _ => {},
            }
            i = i + 1;
        }
        proof {
            assert(e.subrange(0, n as int) =~= e);
        }
        count == 0 || count as u64 <= (i32::MAX as i64 + 1 - base) as u64
    }

    /// One more than the largest slot any Sampler2D holds; 0 when none does.
    fn slot_base(&self) -> (base: i64)
        ensures
            base == slot_base(self.entries()),
            0 <= base <= i32::MAX as int + 1,
    {
        let ghost e = self.entries();
        let n = self.uniforms.len();
        let mut base: i64 = 0;
        let mut i: usize = 0;
        proof {
            assert(e.subrange(0, 0) =~= Seq::<(Seq<char>, UniformValue)>::empty());
        }
        while i < n
            invariant
                n == e.len(),
                e == self.entries(),
                i <= n,
                base == slot_base(e.subrange(0, i as int)),
                0 <= base <= i32::MAX as int + 1,
            decreases n - i,
        {
            proof {
                assert(e.subrange(0, i + 1).drop_last() =~= e.subrange(0, i as int));
                assert(self.uniforms@[i as int].1 == e[i as int].1);
            }
            match &self.uniforms[i].1 {
                UniformValue::Sampler2D(s) => {
                    if s.n_texture >= 0 && s.n_texture as i64 + 1 > base {
                        base = s.n_texture as i64 + 1;
                    }
                },
                _ => {},
            }
            i = i + 1;
        }
        proof {
            assert(e.subrange(0, n as int) =~= e);
        }
        base
    }

    /// Give every Sampler2D that holds pixels but no slot a slot of its own,
    /// in order: `slot_base` for the first, one more for each next (see
    /// `numbered_entry`); everything else is kept. Returns the positions of
    /// the Sampler2D uniforms holding pixels: the ones to upload to the GPU.
    ///
    /// New slots start one above the largest slot any sampler holds, not at 0
    /// with a counter that restarts after each slotted sampler: that way no
    /// new slot repeats another new one or one already held (see
    /// `law_new_slots_increase`, `law_new_slot_unused`). So a sampler holding
    /// slot 5 makes the next new slot 6, and a sampler holding `i32::MAX`
    /// leaves no room for new slots (`numbering_fits` fails).
    pub fn number_sampler2d(&mut self) -> (uploads: Vec<usize>)
        requires
            numbering_fits(old(self).entries()),
        ensures
            final(self).entries().len() == old(self).entries().len(),
            forall|i: int| 0 <= i < old(self).entries().len() ==>
                #[trigger] final(self).entries()[i] == numbered_entry(old(self).entries(), i),
            forall|k: int| 0 <= k < uploads@.len() ==> #[trigger] uploads@[k] < old(self).entries().len(),
            forall|k: int, l: int| 0 <= k < l < uploads@.len() ==> uploads@[k] < uploads@[l],
            forall|i: int| 0 <= i < old(self).entries().len() ==>
                (uploads@.contains(i as usize) <==> has_pixels(#[trigger] old(self).entries()[i].1)),
    {
        let ghost e0 = self.entries();
        let base = self.slot_base();
        let mut items = self.take_items();
        let n = items.len();
        let mut counter: i64 = base;
        let mut uploads: Vec<usize> = Vec::new();
        let mut i: usize = 0;
        proof {
            assert(e0.subrange(0, 0) =~= Seq::<(Seq<char>, UniformValue)>::empty());
        }
        while i < n
            invariant
                n == e0.len(),
                i <= n,
                items@.len() == n,
                numbering_fits(e0),
                base == slot_base(e0),
                0 <= base <= i32::MAX as int + 1,
                counter == base + count_needing(e0.subrange(0, i as int)),
                forall|j: int| 0 <= j < i ==> #[trigger] entries_of(items@)[j] == numbered_entry(e0, j),
                forall|j: int| i <= j < n ==> #[trigger] entries_of(items@)[j] == e0[j],
                forall|k: int| 0 <= k < uploads@.len() ==> #[trigger] uploads@[k] < i,
                forall|k: int, l: int| 0 <= k < l < uploads@.len() ==> uploads@[k] < uploads@[l],
                forall|j: int| 0 <= j < i ==> (uploads@.contains(j as usize) <==> has_pixels(#[trigger] e0[j].1)),
            decreases n - i,
        {
            proof {
                lemma_count_step(e0, i as int);
                lemma_count_prefix_le(e0, i as int + 1);
                assert(entries_of(items@)[i as int] == e0[i as int]);
            }
            let ghost before = entries_of(items@);
            let ghost up0 = uploads@;
            let (key, value) = items.remove(i);
            let ghost v0 = value;
            assert(v0 == e0[i as int].1);
            let new_value = match value {
                UniformValue::Sampler2D(mut s) => {
                    if s.data.len() > 0 {
                        if s.n_texture == -1 {
                            s.n_texture = counter as i32;
                            counter = counter + 1;
                        }
                        uploads.push(i);
                    }
                    UniformValue::Sampler2D(s)
                },
                other => other,
            };
            let ghost nv = new_value;
            assert(has_pixels(v0) ==> uploads@ == up0.push(i));
            assert(!has_pixels(v0) ==> uploads@ == up0);
            items.insert(i, (key, new_value));
            proof {
                assert(nv == numbered_entry(e0, i as int).1);
                assert(entries_of(items@) =~= before.update(i as int, (before[i as int].0, nv)));
                assert forall|j: int| 0 <= j < i + 1 implies (uploads@.contains(j as usize) <==> has_pixels(#[trigger] e0[j].1)) by {
                    if j < i {
                        if uploads@.contains(j as usize) {
                            let k = choose|k: int| 0 <= k < uploads@.len() && uploads@[k] == j as usize;
                            assert(k < up0.len());
                            assert(up0[k] == j as usize);
                        }
                        if up0.contains(j as usize) {
                            let k = choose|k: int| 0 <= k < up0.len() && up0[k] == j as usize;
                            assert(uploads@[k] == j as usize);
                        }
                    } else {
                        if uploads@.contains(j as usize) {
                            let k = choose|k: int| 0 <= k < uploads@.len() && uploads@[k] == j as usize;
                        }
                        if has_pixels(e0[j].1) {
                            assert(uploads@[uploads@.len() - 1] == i);
                        }
                    }
                }
            }
            i = i + 1;
        }
        proof {
            let e1 = entries_of(items@);
            assert forall|a: int, b: int|
                0 <= a < e1.len() && 0 <= b < e1.len() && a != b implies #[trigger] e1[a].0 != #[trigger] e1[b].0 by {
                assert(e0[a].0 != e0[b].0);
            }
        }
        self.uniforms = items;
        uploads
    }
}

// ---------------------------------------------------------------------------
// Laws of the uniform operations
// ---------------------------------------------------------------------------

/// The built-ins are read as stored: a vec4 under a name is read back as
/// exactly its four words, a vec3 as its three, a float as its word (sign
/// bits and all); a name that is missing or of another type reads as zeros.
pub proof fn law_built_ins_read_as_stored(m: Map<Seq<char>, UniformValue>, name: Seq<char>)
    ensures
        m.contains_key(name) ==> (m[name] matches UniformValue::Vec4(v) ==> vec4_or_zero(m, name) == v@),
        m.contains_key(name) ==> (m[name] matches UniformValue::Vec3(v) ==> vec3_or_zero(m, name) == v@),
        m.contains_key(name) ==> (m[name] matches UniformValue::Float(t) ==> float_or_zero(m, name) == t),
        !(m.contains_key(name) && m[name] is Vec4) ==> vec4_or_zero(m, name) == seq![0u32, 0, 0, 0],
        !(m.contains_key(name) && m[name] is Vec3) ==> vec3_or_zero(m, name) == seq![0u32, 0, 0],
        !(m.contains_key(name) && m[name] is Float) ==> float_or_zero(m, name) == 0,
{
}

/// Storing a vec4 under iMouse is what the next push constants carry as
/// iMouse, word for word.
pub proof fn law_mouse_write_reaches_push_constants(m: Map<Seq<char>, UniformValue>, v: [u32; 4])
    ensures
        vec4_or_zero(m.insert("iMouse"@, UniformValue::Vec4(v)), "iMouse"@) == v@,
{
}

/// Reading a name right after adding a value under it gives that value when
/// the name was free, and the earlier value when it was taken.
pub proof fn law_get_after_add(m: Map<Seq<char>, UniformValue>, name: Seq<char>, v: UniformValue)
    ensures
        lookup(add_result(m, name, v), name) == (if m.contains_key(name) { lookup(m, name) } else { Some(v) }),
{
}

/// Reading a name right after setting it gives the value set, provided the
/// name existed; a missing name stays missing.
pub proof fn law_get_after_set(m: Map<Seq<char>, UniformValue>, name: Seq<char>, v: UniformValue)
    ensures
        lookup(set_result(m, name, v), name) == (if m.contains_key(name) { Some(v) } else { None::<UniformValue> }),
{
}

/// After removing a name, reading it finds nothing.
pub proof fn law_get_after_remove(m: Map<Seq<char>, UniformValue>, name: Seq<char>)
    ensures
        lookup(m.remove(name), name) is None,
{
}

/// Adding, setting or removing one name leaves every other name as it was.
pub proof fn law_other_names_untouched(m: Map<Seq<char>, UniformValue>, name: Seq<char>, other: Seq<char>, v: UniformValue)
    requires
        other != name,
    ensures
        lookup(add_result(m, name, v), other) == lookup(m, other),
        lookup(set_result(m, name, v), other) == lookup(m, other),
        lookup(m.remove(name), other) == lookup(m, other),
{
}

/// Removing a name that was just added under a free name restores the
/// uniforms as they were.
pub proof fn law_remove_undoes_add(m: Map<Seq<char>, UniformValue>, name: Seq<char>, v: UniformValue)
    requires
        !m.contains_key(name),
    ensures
        add_result(m, name, v).remove(name) == m,
{
    assert(add_result(m, name, v).remove(name) =~= m);
}

/// For a name that exists, removing it and adding it again has the same
/// effect on the uniforms as setting it.
pub proof fn law_remove_then_add_is_set(m: Map<Seq<char>, UniformValue>, name: Seq<char>, v: UniformValue)
    requires
        m.contains_key(name),
    ensures
        add_result(m.remove(name), name, v) == set_result(m, name, v),
{
    assert(add_result(m.remove(name), name, v) =~= set_result(m, name, v));
}

/// Setting a name twice leaves only the second value.
pub proof fn law_set_twice(m: Map<Seq<char>, UniformValue>, name: Seq<char>, v1: UniformValue, v2: UniformValue)
    ensures
        set_result(set_result(m, name, v1), name, v2) == set_result(m, name, v2),
{
    assert(set_result(set_result(m, name, v1), name, v2) =~= set_result(m, name, v2));
}

/// Writing the time uniform (when it exists) is what the next push
/// constants carry as iTime, and the other built-ins are unaffected.
pub proof fn law_time_write_reaches_push_constants(m: Map<Seq<char>, UniformValue>, t: u32)
    requires
        m.contains_key("iTime"@),
    ensures
        float_or_zero(set_result(m, "iTime"@, UniformValue::Float(t)), "iTime"@) == t,
        vec4_or_zero(set_result(m, "iTime"@, UniformValue::Float(t)), "iMouse"@) == vec4_or_zero(m, "iMouse"@),
        vec3_or_zero(set_result(m, "iTime"@, UniformValue::Float(t)), "iResolution"@) == vec3_or_zero(
            m,
            "iResolution"@,
        ),
{
    reveal_strlit("iTime");
    reveal_strlit("iMouse");
    reveal_strlit("iResolution");
    assert("iTime"@[1] != "iMouse"@[1]);
    assert("iTime"@.len() != "iResolution"@.len());
}

/// In the bytes handed to the GPU, byte `j` of word `i` sits at offset
/// `4 * i + j`.
pub proof fn law_push_constant_byte_layout(words: Seq<u32>, i: int, j: int)
    requires
        0 <= i < words.len(),
        0 <= j < 4,
    ensures
        words_le_bytes(words).len() == 4 * words.len(),
        words_le_bytes(words)[4 * i + j] == u32_le_bytes(words[i])[j],
    decreases words.len(),
{
    lemma_words_le_bytes_len(words);
    lemma_words_le_bytes_len(words.drop_last());
    if i < words.len() - 1 {
        law_push_constant_byte_layout(words.drop_last(), i, j);
    }
}

// ---------------------------------------------------------------------------
// Numbering of texture slots
// ---------------------------------------------------------------------------

/// The Sampler2D values of `e` that have a texture slot and a texture view,
/// each with its slot, in order.
pub open spec fn bound_samplers(e: Seq<(Seq<char>, UniformValue)>) -> Seq<(i32, Sampler2D)>
    decreases e.len(),
{
    if e.len() == 0 {
        Seq::empty()
    } else {
        let prev = bound_samplers(e.drop_last());
        match e.last().1 {
            UniformValue::Sampler2D(s) => {
                if s.n_texture >= 0 && s.texture_view is Some {
                    prev.push((s.n_texture, s))
                } else {
                    prev
                }
            },
            _ => prev,
        }
    }
}

/// A Sampler2D uniform holding pixels not yet uploaded.
pub open spec fn has_pixels(v: UniformValue) -> bool {
    v matches UniformValue::Sampler2D(s) && s.data@.len() > 0
}

/// A Sampler2D holding pixels but no slot yet.
pub open spec fn needs_slot(v: UniformValue) -> bool {
    v matches UniformValue::Sampler2D(s) && s.data@.len() > 0 && s.n_texture == -1
}

/// One more than the largest slot a Sampler2D of `e` holds; 0 when none does.
pub open spec fn slot_base(e: Seq<(Seq<char>, UniformValue)>) -> int
    decreases e.len(),
{
    if e.len() == 0 {
        0
    } else {
        let b = slot_base(e.drop_last());
        match e.last().1 {
            UniformValue::Sampler2D(s) => if s.n_texture >= 0 && s.n_texture + 1 > b {
                s.n_texture + 1
            } else {
                b
            },
            _ => b,
        }
    }
}

/// How many entries of `e` need a slot.
pub open spec fn count_needing(e: Seq<(Seq<char>, UniformValue)>) -> nat
    decreases e.len(),
{
    if e.len() == 0 {
        0
    } else {
        count_needing(e.drop_last()) + if needs_slot(e.last().1) { 1nat } else { 0nat }
    }
}

/// The slot entry `i` of `e` gets when it needs one: `slot_base(e)` plus the
/// number of entries before it that need one.
pub open spec fn new_slot(e: Seq<(Seq<char>, UniformValue)>, i: int) -> int {
    slot_base(e) + count_needing(e.subrange(0, i))
}

/// Entry `i` of `e` after numbering: a sampler that needs a slot takes
/// `new_slot(e, i)`; every other entry stays as it is.
pub open spec fn numbered_entry(e: Seq<(Seq<char>, UniformValue)>, i: int) -> (Seq<char>, UniformValue) {
    match e[i].1 {
        UniformValue::Sampler2D(s) => if needs_slot(e[i].1) {
            (e[i].0, UniformValue::Sampler2D(Sampler2D { n_texture: new_slot(e, i) as i32, ..s }))
        } else {
            e[i]
        },
        _ => e[i],
    }
}

/// Every slot numbering gives fits in an `i32`.
pub open spec fn numbering_fits(e: Seq<(Seq<char>, UniformValue)>) -> bool {
    count_needing(e) == 0 || slot_base(e) + count_needing(e) - 1 <= i32::MAX
}

proof fn lemma_count_step(e: Seq<(Seq<char>, UniformValue)>, i: int)
    requires
        0 <= i < e.len(),
    ensures
        count_needing(e.subrange(0, i + 1)) == count_needing(e.subrange(0, i)) + if needs_slot(e[i].1) { 1nat } else { 0nat },
{
    assert(e.subrange(0, i + 1).drop_last() =~= e.subrange(0, i));
}

proof fn lemma_count_prefix_le(e: Seq<(Seq<char>, UniformValue)>, k: int)
    requires
        0 <= k <= e.len(),
    ensures
        count_needing(e.subrange(0, k)) <= count_needing(e),
    decreases e.len() - k,
{
    if k < e.len() {
        lemma_count_step(e, k);
        lemma_count_prefix_le(e, k + 1);
    } else {
        assert(e.subrange(0, k) =~= e);
    }
}

proof fn lemma_slot_base_bounds(e: Seq<(Seq<char>, UniformValue)>, j: int)
    requires
        0 <= j < e.len(),
    ensures
        slot_base(e) >= 0,
        e[j].1 matches UniformValue::Sampler2D(s) ==> s.n_texture < slot_base(e),
    decreases e.len(),
{
    lemma_slot_base_nonneg(e);
    if j < e.len() - 1 {
        lemma_slot_base_bounds(e.drop_last(), j);
    } else {
        lemma_slot_base_nonneg(e.drop_last());
    }
}

proof fn lemma_slot_base_nonneg(e: Seq<(Seq<char>, UniformValue)>)
    ensures
        slot_base(e) >= 0,
        e.len() > 0 ==> slot_base(e) >= slot_base(e.drop_last()),
    decreases e.len(),
{
    if e.len() > 0 {
        lemma_slot_base_nonneg(e.drop_last());
    }
}

/// Numbering gives new slots in order: a sampler that needs a slot gets a
/// larger one than every earlier sampler that needs one, so no two new slots
/// are equal.
pub proof fn law_new_slots_increase(e: Seq<(Seq<char>, UniformValue)>, i: int, j: int)
    requires
        0 <= i < j < e.len(),
        needs_slot(e[i].1),
    ensures
        new_slot(e, i) < new_slot(e, j),
    decreases j - i,
{
    lemma_count_step(e, i);
    if i + 1 < j {
        lemma_count_monotone(e, i + 1, j);
    }
}

proof fn lemma_count_monotone(e: Seq<(Seq<char>, UniformValue)>, a: int, b: int)
    requires
        0 <= a <= b <= e.len(),
    ensures
        count_needing(e.subrange(0, a)) <= count_needing(e.subrange(0, b)),
    decreases b - a,
{
    if a < b {
        lemma_count_step(e, b - 1);
        lemma_count_monotone(e, a, b - 1);
    }
}

/// A new slot is none of the slots any sampler already holds: it is at least
/// one more than each of them. The first sampler needing a slot gets
/// `slot_base` (0 when no sampler holds a slot).
pub proof fn law_new_slot_unused(e: Seq<(Seq<char>, UniformValue)>, i: int, j: int)
    requires
        0 <= i < e.len(),
        0 <= j < e.len(),
        needs_slot(e[i].1),
    ensures
        new_slot(e, i) >= 0,
        e[j].1 matches UniformValue::Sampler2D(s) ==> s.n_texture != new_slot(e, i),
        count_needing(e.subrange(0, i)) == 0 ==> new_slot(e, i) == slot_base(e),
{
    lemma_slot_base_bounds(e, j);
}

} // verus!
