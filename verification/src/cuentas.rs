//! Modelo del colaborador monetario del libro mayor anfitrión: cuentas con
//! saldo, depósito existencial y transferencias con política "keep-alive".
//!
//! Una transferencia se rechaza si dejaría al emisor por debajo del depósito
//! existencial (el mínimo con el que una cuenta sigue viva), si alguna de las
//! dos cuentas no existe, o si el saldo del receptor no puede representar el
//! resultado; un rechazo no muta ningún saldo.

use vstd::prelude::*;

use crate::tabla::claves_unicas;
use crate::tabla::lema_actualizar;
use crate::tabla::lema_agregar;
use crate::tabla::lema_dominio;
use crate::tabla::lema_valor;
use crate::tabla::mapa_de;

verus! {

/// Cuentas monetarias del libro mayor anfitrión.
pub struct Cuentas {
    deposito_existencial: u64,
    saldos: Vec<(u64, u64)>,
}

impl Cuentas {
    /// Saldo de cada cuenta existente.
    pub closed spec fn saldos(self) -> Map<u64, u64> {
        mapa_de(self.saldos@)
    }

    /// Mínimo con el que una cuenta sigue viva.
    pub closed spec fn deposito_existencial(self) -> u64 {
        self.deposito_existencial
    }

    /// Cada cuenta aparece una sola vez y ninguna viva está por debajo del
    /// depósito existencial.
    pub closed spec fn wf(self) -> bool {
        &&& claves_unicas(self.saldos@)
        &&& forall|i: int|
            0 <= i < self.saldos@.len() ==> (#[trigger] self.saldos@[i]).1
                >= self.deposito_existencial
    }

    pub open spec fn contiene(self, quien: u64) -> bool {
        self.saldos().contains_key(quien)
    }

    /// Saldo de una cuenta, o cero si no existe.
    pub open spec fn saldo_o_cero(self, quien: u64) -> u64 {
        if self.saldos().contains_key(quien) {
            self.saldos()[quien]
        } else {
            0
        }
    }

    /// Condición exacta bajo la que una transferencia "keep-alive" procede.
    pub open spec fn transferencia_posible(self, de: u64, a: u64, cantidad: u64) -> bool {
        &&& self.contiene(de)
        &&& self.contiene(a)
        &&& de != a
        &&& self.saldos()[de] >= self.deposito_existencial() + cantidad
        &&& self.saldos()[a] + cantidad <= u64::MAX
    }

    /// Sistema monetario sin ninguna cuenta abierta.
    pub fn nueva(deposito_existencial: u64) -> (r: Cuentas)
        ensures
            r.wf(),
            r.deposito_existencial() == deposito_existencial,
            r.saldos() == Map::<u64, u64>::empty(),
    {
        Cuentas { deposito_existencial, saldos: Vec::new() }
    }

    /// Abre una cuenta con un saldo inicial; falla si la cuenta ya existe o
    /// si el saldo no alcanza el depósito existencial.
    pub fn abrir(&mut self, quien: u64, saldo: u64) -> (r: bool)
        requires
            old(self).wf(),
        ensures
            final(self).wf(),
            final(self).deposito_existencial() == old(self).deposito_existencial(),
            r == (!old(self).contiene(quien) && saldo >= old(self).deposito_existencial()),
            r ==> final(self).saldos() == old(self).saldos().insert(quien, saldo),
            !r ==> *final(self) == *old(self),
    {
        if saldo < self.deposito_existencial {
            return false;
        }
        let existe = self.indice_de(quien);
        match existe {
            Some(i) => {
                proof {
                    lema_valor(self.saldos@, i as int);
                }
                false
            },
            None => {
                proof {
                    lema_dominio(self.saldos@, quien);
                }
                let ghost antes = self.saldos@;
                self.saldos.push((quien, saldo));
                proof {
                    lema_agregar(antes, quien, saldo);
                    assert(forall|n: int|
                        0 <= n < antes.len() ==> #[trigger] self.saldos@[n] == antes[n]);
                    assert(claves_unicas(self.saldos@));
                }
                true
            },
        }
    }

    /// Saldo consultable de una cuenta; cero si no existe.
    pub fn saldo_de(&self, quien: u64) -> (r: u64)
        requires
            self.wf(),
        ensures
            r == self.saldo_o_cero(quien),
    {
        let existe = self.indice_de(quien);
        match existe {
            Some(i) => {
                proof {
                    lema_valor(self.saldos@, i as int);
                }
                self.saldos[i].1
            },
            None => 0,
        }
    }

    /// Mueve `cantidad` de la cuenta `de` a la cuenta `a` bajo la política
    /// "keep-alive"; informa si la transferencia procedió. Un rechazo, por
    /// la causa que sea, deja todos los saldos intactos.
    pub fn transferir(&mut self, de: u64, a: u64, cantidad: u64) -> (r: bool)
        requires
            old(self).wf(),
        ensures
            final(self).wf(),
            final(self).deposito_existencial() == old(self).deposito_existencial(),
            r == old(self).transferencia_posible(de, a, cantidad),
            r ==> final(self).saldos() == old(self).saldos().insert(
                de,
                (old(self).saldos()[de] - cantidad) as u64,
            ).insert(a, (old(self).saldos()[a] + cantidad) as u64),
            !r ==> *final(self) == *old(self),
    {
        let indice_de_emisor = self.indice_de(de);
        let i = match indice_de_emisor {
            None => {
                return false;
            },
            Some(i) => i,
        };
        let indice_de_receptor = self.indice_de(a);
        let j = match indice_de_receptor {
            None => {
                return false;
            },
            Some(j) => j,
        };
        if de == a {
            return false;
        }
        proof {
            lema_valor(self.saldos@, i as int);
            lema_valor(self.saldos@, j as int);
        }
        let saldo_emisor = self.saldos[i].1;
        let saldo_receptor = self.saldos[j].1;
        // saldo_emisor >= deposito_existencial vale por `wf`, así que la
        // resta no desborda y equivale a saldo_emisor >= deposito + cantidad.
        if saldo_emisor - self.deposito_existencial < cantidad {
            return false;
        }
        if saldo_receptor > u64::MAX - cantidad {
            return false;
        }
        let ghost antes = self.saldos@;
        self.saldos[i].1 = saldo_emisor - cantidad;
        proof {
            assert(self.saldos@ =~= antes.update(i as int, (de, (saldo_emisor - cantidad) as u64)));
            lema_actualizar(antes, i as int, (saldo_emisor - cantidad) as u64);
            assert(claves_unicas(self.saldos@)) by {
                assert(forall|n: int|
                    0 <= n < antes.len() && n != i ==> #[trigger] self.saldos@[n] == antes[n]);
            }
            assert((self.saldos@[j as int]).0 == a);
            lema_valor(self.saldos@, j as int);
        }
        let ghost medio = self.saldos@;
        self.saldos[j].1 = saldo_receptor + cantidad;
        proof {
            assert(self.saldos@ =~= medio.update(j as int, (a, (saldo_receptor + cantidad) as u64)));
            lema_actualizar(medio, j as int, (saldo_receptor + cantidad) as u64);
            assert(forall|n: int|
                0 <= n < medio.len() && n != j ==> #[trigger] self.saldos@[n] == medio[n]);
            assert(forall|n: int|
                0 <= n < antes.len() && n != i ==> #[trigger] medio[n] == antes[n]);
        }
        true
    }

    /// Posición de la cuenta `quien` en la tabla, si existe.
    fn indice_de(&self, quien: u64) -> (r: Option<usize>)
        ensures
            match r {
                Some(i) => i < self.saldos@.len() && (self.saldos@[i as int]).0 == quien,
                None => !self.contiene(quien),
            },
    {
        let mut i: usize = 0;
        while i < self.saldos.len()
            invariant
                i <= self.saldos@.len(),
                forall|n: int| 0 <= n < i ==> (#[trigger] self.saldos@[n]).0 != quien,
            decreases self.saldos@.len() - i,
        {
            if self.saldos[i].0 == quien {
                return Some(i);
            }
            i += 1;
        }
        proof {
            lema_dominio(self.saldos@, quien);
        }
        None
    }
}

} // verus!
