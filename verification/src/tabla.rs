//! Tablas de pares clave-valor vistas como mapas matemáticos.
//!
//! Tanto el libro de proyectos como las cuentas monetarias guardan sus
//! entradas en un `Vec` de pares; aquí se define el mapa que una secuencia
//! de pares denota y los lemas que conectan las operaciones sobre la
//! secuencia con `insert` sobre el mapa.

use vstd::prelude::*;

verus! {

/// Mapa denotado por una secuencia de pares; ante claves repetidas vale el
/// último par.
pub open spec fn mapa_de<K, V>(s: Seq<(K, V)>) -> Map<K, V>
    decreases s.len(),
{
    if s.len() == 0 {
        Map::empty()
    } else {
        mapa_de(s.drop_last()).insert(s.last().0, s.last().1)
    }
}

/// Ninguna clave aparece dos veces en la secuencia.
pub open spec fn claves_unicas<K, V>(s: Seq<(K, V)>) -> bool {
    forall|i: int, j: int|
        0 <= i < j < s.len() ==> (#[trigger] s[i]).0 != (#[trigger] s[j]).0
}

/// El dominio del mapa denotado es exactamente el conjunto de claves de la
/// secuencia.
pub proof fn lema_dominio<K, V>(s: Seq<(K, V)>, k: K)
    ensures
        mapa_de(s).contains_key(k) <==> exists|i: int|
            0 <= i < s.len() && (#[trigger] s[i]).0 == k,
    decreases s.len(),
{
    if s.len() > 0 {
        lema_dominio(s.drop_last(), k);
        assert(forall|i: int| 0 <= i < s.len() - 1 ==> #[trigger] s.drop_last()[i] == s[i]);
        if s.last().0 == k {
            assert((s[s.len() - 1]).0 == k);
        } else if mapa_de(s).contains_key(k) {
            let i = choose|i: int| 0 <= i < s.drop_last().len() && (#[trigger] s.drop_last()[i]).0 == k;
            assert((s[i]).0 == k);
        } else if exists|i: int| 0 <= i < s.len() && (#[trigger] s[i]).0 == k {
            let i = choose|i: int| 0 <= i < s.len() && (#[trigger] s[i]).0 == k;
            assert((s.drop_last()[i]).0 == k);
        }
    }
}

/// Con claves únicas, el mapa asigna a cada clave el valor de su par.
pub proof fn lema_valor<K, V>(s: Seq<(K, V)>, i: int)
    requires
        claves_unicas(s),
        0 <= i < s.len(),
    ensures
        mapa_de(s).contains_key((s[i]).0),
        mapa_de(s)[(s[i]).0] == (s[i]).1,
    decreases s.len(),
{
    if i < s.len() - 1 {
        assert(claves_unicas(s.drop_last())) by {
            assert(forall|n: int| 0 <= n < s.len() - 1 ==> #[trigger] s.drop_last()[n] == s[n]);
        }
        lema_valor(s.drop_last(), i);
        assert((s[i]).0 != (s[s.len() - 1]).0);
    }
}

/// Agregar un par al final equivale a `insert` sobre el mapa denotado.
pub proof fn lema_agregar<K, V>(s: Seq<(K, V)>, k: K, v: V)
    ensures
        mapa_de(s.push((k, v))) == mapa_de(s).insert(k, v),
{
    assert(s.push((k, v)).drop_last() =~= s);
}

/// Reemplazar el valor del par `i` equivale a `insert` de su clave.
pub proof fn lema_actualizar<K, V>(s: Seq<(K, V)>, i: int, v: V)
    requires
        claves_unicas(s),
        0 <= i < s.len(),
    ensures
        mapa_de(s.update(i, ((s[i]).0, v))) == mapa_de(s).insert((s[i]).0, v),
    decreases s.len(),
{
    let k = (s[i]).0;
    let t = s.update(i, (k, v));
    if i == s.len() - 1 {
        assert(t.drop_last() =~= s.drop_last());
        assert(t.last() == (k, v));
        assert(mapa_de(s).insert(k, v) =~= mapa_de(s.drop_last()).insert(k, v));
    } else {
        assert(claves_unicas(s.drop_last())) by {
            assert(forall|n: int| 0 <= n < s.len() - 1 ==> #[trigger] s.drop_last()[n] == s[n]);
        }
        assert(t.drop_last() =~= s.drop_last().update(i, (k, v)));
        lema_actualizar(s.drop_last(), i, v);
        assert(k != (s[s.len() - 1]).0);
        assert(t.last() == s.last());
        assert(mapa_de(s.drop_last()).insert(k, v).insert(s.last().0, s.last().1)
            =~= mapa_de(s.drop_last()).insert(s.last().0, s.last().1).insert(k, v));
    }
}

} // verus!
