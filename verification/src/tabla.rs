//! Tables keyed by strings, which remember the order in which their keys were added.

use vstd::prelude::*;
use crate::texto::igual;

verus! {

/// The contents of a table: its keys in the order in which they were added, and the value of each.
#[verifier::ext_equal]
pub struct TablaV<V> {
    pub claves: Seq<Seq<char>>,
    pub datos: Map<Seq<char>, V>,
}

impl<V> TablaV<V> {
    /// The table without entries.
    pub open spec fn vacia() -> Self {
        TablaV { claves: Seq::empty(), datos: Map::empty() }
    }

    /// No key is listed twice, and the keys that are listed are those that have a value.
    pub open spec fn valida(self) -> bool {
        &&& self.claves.no_duplicates()
        &&& forall|k: Seq<char>| #[trigger] self.datos.contains_key(k) <==> self.claves.contains(k)
    }

    /// Whether `k` has a value.
    pub open spec fn contiene(self, k: Seq<char>) -> bool {
        self.datos.contains_key(k)
    }

    /// The value of `k`.
    pub open spec fn valor(self, k: Seq<char>) -> V {
        self.datos[k]
    }

    /// The table in which `k` has the value `v`. A new key comes last; a known one keeps its place.
    pub open spec fn poner(self, k: Seq<char>, v: V) -> Self {
        TablaV {
            claves: if self.datos.contains_key(k) {
                self.claves
            } else {
                self.claves.push(k)
            },
            datos: self.datos.insert(k, v),
        }
    }

    /// The table without `k`; the other keys keep their order.
    pub open spec fn quitar(self, k: Seq<char>) -> Self {
        TablaV {
            claves: if self.datos.contains_key(k) {
                self.claves.remove(self.claves.index_of(k))
            } else {
                self.claves
            },
            datos: self.datos.remove(k),
        }
    }

    /// The values, in the order of their keys.
    pub open spec fn valores(self) -> Seq<V> {
        Seq::new(self.claves.len(), |i: int| self.datos[self.claves[i]])
    }
}

/// Setting a value keeps a table valid.
pub proof fn lema_poner_valida<V>(t: TablaV<V>, k: Seq<char>, v: V)
    requires
        t.valida(),
    ensures
        t.poner(k, v).valida(),
{
    let u = t.poner(k, v);
    if !t.datos.contains_key(k) {
        assert forall|x: Seq<char>| #[trigger] u.datos.contains_key(x) <==> u.claves.contains(x) by {
            if t.claves.contains(x) {
                let i = t.claves.index_of(x);
                assert(u.claves[i] == x);
            }
            assert(u.claves[t.claves.len() as int] == k);
        }
    }
}

/// Removing a key keeps a table valid.
pub proof fn lema_quitar_valida<V>(t: TablaV<V>, k: Seq<char>)
    requires
        t.valida(),
    ensures
        t.quitar(k).valida(),
{
    let u = t.quitar(k);
    if t.datos.contains_key(k) {
        let p = t.claves.index_of(k);
        assert forall|x: Seq<char>| #[trigger] u.datos.contains_key(x) <==> u.claves.contains(x) by {
            if t.claves.contains(x) && x != k {
                let i = t.claves.index_of(x);
                if i < p {
                    assert(u.claves[i] == x);
                } else {
                    assert(u.claves[i - 1] == x);
                }
            }
            if u.claves.contains(x) {
                let j = u.claves.index_of(x);
                assert(t.claves[if j < p { j } else { j + 1 }] == x);
            }
        }
    }
}

/// Setting the value that a key already has changes nothing.
pub proof fn lema_poner_igual<V>(t: TablaV<V>, k: Seq<char>)
    requires
        t.contiene(k),
    ensures
        t.poner(k, t.valor(k)) == t,
{
    assert(t.datos.insert(k, t.datos[k]) =~= t.datos);
}

/// Setting a value: the key has it afterwards, every other key has what it had. The keys that were
/// there keep their places, and a new one comes last.
pub proof fn ley_poner<V>(t: TablaV<V>, k: Seq<char>, v: V)
    requires
        t.valida(),
    ensures
        ({
            let u = t.poner(k, v);
            &&& u.datos.contains_key(k) && u.datos[k] == v
            &&& forall|x: Seq<char>|
                x != k ==> (#[trigger] u.datos.contains_key(x) <==> t.datos.contains_key(x))
            &&& forall|x: Seq<char>| #[trigger]
                t.datos.contains_key(x) && x != k ==> u.datos[x] == t.datos[x]
            &&& u.claves.take(t.claves.len() as int) == t.claves
            &&& t.claves.contains(k) ==> u.claves.len() == t.claves.len()
            &&& !t.claves.contains(k) ==> u.claves.len() == t.claves.len() + 1 && u.claves.last()
                == k
        }),
{
    assert(t.datos.contains_key(k) <==> t.claves.contains(k));
    assert(t.poner(k, v).claves.take(t.claves.len() as int) =~= t.claves);
}

/// Removing a key: it has no value afterwards, every other key has what it had, and the order of
/// the others stays.
pub proof fn ley_quitar<V>(t: TablaV<V>, k: Seq<char>, p: int)
    requires
        t.valida(),
    ensures
        ({
            let u = t.quitar(k);
            &&& !u.datos.contains_key(k)
            &&& forall|x: Seq<char>|
                x != k ==> (#[trigger] u.datos.contains_key(x) <==> t.datos.contains_key(x))
            &&& forall|x: Seq<char>| #[trigger]
                t.datos.contains_key(x) && x != k ==> u.datos[x] == t.datos[x]
            &&& !t.claves.contains(k) ==> u == t
            &&& 0 <= p < t.claves.len() && t.claves[p] == k ==> u.claves == t.claves.take(p)
                + t.claves.skip(p + 1)
        }),
{
    assert(t.datos.contains_key(k) <==> t.claves.contains(k));
    if !t.claves.contains(k) {
        assert(t.quitar(k).datos =~= t.datos);
    }
    if 0 <= p < t.claves.len() && t.claves[p] == k {
        assert(t.claves.index_of(k) == p);
        assert(t.quitar(k).claves =~= t.claves.take(p) + t.claves.skip(p + 1));
    }
}

/// A key that was not there can be set and removed again without a trace.
pub proof fn ley_poner_y_quitar<V>(t: TablaV<V>, k: Seq<char>, v: V)
    requires
        t.valida(),
        !t.claves.contains(k),
    ensures
        t.poner(k, v).quitar(k) == t,
{
    let u = t.poner(k, v);
    assert(!t.datos.contains_key(k));
    lema_poner_valida(t, k, v);
    assert(u.claves[t.claves.len() as int] == k);
    ley_quitar(u, k, t.claves.len() as int);
    assert(u.quitar(k).claves =~= t.claves);
    assert(u.quitar(k).datos =~= t.datos);
}

/// A table has a value for exactly the keys that it lists, and lists the values as it lists the
/// keys.
pub proof fn ley_valores<V>(t: TablaV<V>, k: Seq<char>)
    requires
        t.valida(),
    ensures
        t.contiene(k) <==> exists|i: int| 0 <= i < t.claves.len() && #[trigger] t.claves[i] == k,
        t.contiene(k) <==> t.datos.contains_key(k),
        t.valores().len() == t.claves.len(),
        forall|i: int|
            0 <= i < t.claves.len() ==> #[trigger] t.valores()[i] == t.datos[t.claves[i]]
                && t.valores()[i] == t.valor(t.claves[i]),
{
    assert(t.datos.contains_key(k) <==> t.claves.contains(k));
}

/// The table without entries has no keys and no values.
pub proof fn ley_vacia<V>(k: Seq<char>)
    ensures
        TablaV::<V>::vacia().claves.len() == 0,
        !TablaV::<V>::vacia().datos.contains_key(k),
{
}

/// A table from strings to values.
pub struct Tabla<V> {
    entradas: Vec<(String, V)>,
}

/// The keys of a list of entries.
spec fn claves_de<V>(e: Seq<(String, V)>) -> Seq<Seq<char>> {
    Seq::new(e.len(), |i: int| e[i].0@)
}

/// The value that a list of entries gives to each key.
spec fn datos_de<V: View>(e: Seq<(String, V)>) -> Map<Seq<char>, V::V> {
    Map::new(
        |k: Seq<char>| claves_de(e).contains(k),
        |k: Seq<char>| e[claves_de(e).index_of(k)].1@,
    )
}

impl<V: View> View for Tabla<V> {
    type V = TablaV<V::V>;

    closed spec fn view(&self) -> TablaV<V::V> {
        TablaV { claves: claves_de(self.entradas@), datos: datos_de(self.entradas@) }
    }
}

impl<V: View> Tabla<V> {
    /// The entry at a position is what the contents say of its key.
    proof fn lema_entrada(&self, i: int)
        requires
            self@.valida(),
            0 <= i < self.entradas@.len(),
        ensures
            self@.claves.len() == self.entradas@.len(),
            self@.claves[i] == self.entradas@[i].0@,
            self@.contiene(self.entradas@[i].0@),
            self@.valor(self.entradas@[i].0@) == self.entradas@[i].1@,
    {
        let k = self.entradas@[i].0@;
        assert(self@.claves[i] == k);
        assert(self@.claves.contains(k));
    }

    /// A table without entries.
    pub fn nueva() -> (t: Self)
        ensures
            t@ == TablaV::<V::V>::vacia(),
            t@.valida(),
    {
        let t = Tabla { entradas: Vec::new() };
        assert(t@.claves =~= Seq::<Seq<char>>::empty());
        assert(t@.datos =~= Map::<Seq<char>, V::V>::empty());
        t
    }

    /// How many keys the table has.
    pub fn len(&self) -> (n: usize)
        ensures
            n == self@.claves.len(),
    {
        self.entradas.len()
    }

    /// Whether the table has no keys.
    pub fn is_empty(&self) -> (r: bool)
        ensures
            r == (self@.claves.len() == 0),
    {
        self.entradas.len() == 0
    }

    /// The key at position `i`.
    pub fn clave(&self, i: usize) -> (k: &str)
        requires
            self@.valida(),
            i < self@.claves.len(),
        ensures
            k@ == self@.claves[i as int],
    {
        proof {
            self.lema_entrada(i as int);
        }
        self.entradas[i].0.as_str()
    }

    /// The value of the key at position `i`.
    pub fn valor_en(&self, i: usize) -> (v: &V)
        requires
            self@.valida(),
            i < self@.claves.len(),
        ensures
            v@ == self@.valores()[i as int],
    {
        proof {
            self.lema_entrada(i as int);
        }
        &self.entradas[i].1
    }

    /// The position of a key.
    fn posicion(&self, k: &str) -> (r: Option<usize>)
        requires
            self@.valida(),
        ensures
            match r {
                Some(i) => i < self.entradas@.len() && self.entradas@[i as int].0@ == k@
                    && self@.contiene(k@),
                None => !self@.contiene(k@),
            },
    {
        let mut i: usize = 0;
        while i < self.entradas.len()
            invariant
                i <= self.entradas.len(),
                self@.valida(),
                forall|j: int| 0 <= j < i ==> (#[trigger] self.entradas@[j]).0@ != k@,
            decreases self.entradas.len() - i,
        {
            if igual(self.entradas[i].0.as_str(), k) {
                proof {
                    self.lema_entrada(i as int);
                }
                return Some(i);
            }
            i = i + 1;
        }
        proof {
            if self@.contiene(k@) {
                let j = self@.claves.index_of(k@);
                assert(self.entradas@[j].0@ == k@);
            }
        }
        None
    }

    /// Whether the key has a value.
    pub fn contiene(&self, k: &str) -> (r: bool)
        requires
            self@.valida(),
        ensures
            r == self@.contiene(k@),
    {
        match self.posicion(k) {
            Some(_) => true,
            None => false,
        }
    }

    /// The value of a key.
    pub fn buscar(&self, k: &str) -> (r: Option<&V>)
        requires
            self@.valida(),
        ensures
            match r {
                Some(v) => self@.contiene(k@) && v@ == self@.valor(k@),
                None => !self@.contiene(k@),
            },
    {
        match self.posicion(k) {
            Some(i) => {
                proof {
                    self.lema_entrada(i as int);
                }
                Some(&self.entradas[i].1)
            },
            None => None,
        }
    }

    /// Gives the key `k` the value `v`.
    pub fn poner(&mut self, k: String, v: V)
        requires
            old(self)@.valida(),
        ensures
            final(self)@ == old(self)@.poner(k@, v@),
            final(self)@.valida(),
    {
        let ghost antes = self@;
        let ghost e = self.entradas@;
        proof {
            lema_poner_valida(antes, k@, v@);
            assert forall|j: int| 0 <= j < e.len() implies antes.contiene(#[trigger] e[j].0@)
                && antes.valor(e[j].0@) == e[j].1@ && antes.claves[j] == e[j].0@ by {
                self.lema_entrada(j);
            }
        }
        match self.posicion(k.as_str()) {
            Some(i) => {
                let ghost clave = k@;
                let ghost valor = v@;
                self.entradas.set(i, (k, v));
                proof {
                    let f = self.entradas@;
                    assert(claves_de(f) =~= claves_de(e));
                    assert forall|x: Seq<char>| antes.contiene(x) implies #[trigger] self@.datos[x]
                        == antes.datos.insert(clave, valor)[x] by {
                        let j = claves_de(f).index_of(x);
                        assert(claves_de(f).contains(x));
                        assert(f[j].0@ == x);
                        assert(e[j].0@ == x);
                    }
                    assert(self@.datos =~= antes.datos.insert(clave, valor));
                }
            },
            None => {
                let ghost clave = k@;
                let ghost valor = v@;
                self.entradas.push((k, v));
                proof {
                    let f = self.entradas@;
                    assert(claves_de(f) =~= claves_de(e).push(clave));
                    let u = antes.poner(clave, valor);
                    assert(self@.claves =~= u.claves);
                    assert forall|x: Seq<char>| u.datos.contains_key(x) implies #[trigger] self@.datos[x]
                        == u.datos[x] by {
                        let j = claves_de(f).index_of(x);
                        assert(claves_de(f).contains(x));
                        assert(f[j].0@ == x);
                        if j < e.len() {
                            assert(e[j].0@ == x);
                        }
                    }
                    assert(self@.datos =~= u.datos);
                }
            },
        }
    }

    /// Removes the key `k` and gives its value back.
    pub fn quitar(&mut self, k: &str) -> (r: Option<V>)
        requires
            old(self)@.valida(),
        ensures
            final(self)@ == old(self)@.quitar(k@),
            final(self)@.valida(),
            match r {
                Some(v) => old(self)@.contiene(k@) && v@ == old(self)@.valor(k@),
                None => !old(self)@.contiene(k@),
            },
    {
        let ghost antes = self@;
        let ghost e = self.entradas@;
        proof {
            lema_quitar_valida(antes, k@);
            assert forall|j: int| 0 <= j < e.len() implies antes.contiene(#[trigger] e[j].0@)
                && antes.valor(e[j].0@) == e[j].1@ && antes.claves[j] == e[j].0@ by {
                self.lema_entrada(j);
            }
        }
        match self.posicion(k) {
            Some(i) => {
                let par = self.entradas.remove(i);
                proof {
                    let f = self.entradas@;
                    let u = antes.quitar(k@);
                    assert(antes.claves.index_of(k@) == i as int);
                    assert(claves_de(f) =~= u.claves);
                    assert forall|x: Seq<char>| u.datos.contains_key(x) implies #[trigger] self@.datos[x]
                        == u.datos[x] by {
                        let j = claves_de(f).index_of(x);
                        assert(u.claves.contains(x));
                        assert(f[j].0@ == x);
                        assert(e[if j < i { j } else { j + 1 }].0@ == x);
                    }
                    assert(self@.datos =~= u.datos);
                }
                Some(par.1)
            },
            None => {
                assert(antes.datos.remove(k@) =~= antes.datos);
                None
            },
        }
    }
}

} // verus!
