//! El registro de proyectos: un libro mayor de nombres acotados a saldos
//! acumulados, con sus dos operaciones (`crear_proyecto` y
//! `apoyar_proyecto`) y las leyes que las gobiernan.
//!
//! El anfitrión autentica al emisor, entrega los avisos y custodia los
//! fondos; este módulo recibe la identidad ya verificada como valor plano,
//! devuelve el aviso a emitir, y mueve los fondos por la cuenta custodial
//! derivada del identificador del módulo.

use vstd::prelude::*;

use crate::cuentas::Cuentas;
use crate::tabla::claves_unicas;
use crate::tabla::lema_actualizar;
use crate::tabla::lema_agregar;
use crate::tabla::lema_dominio;
use crate::tabla::lema_valor;
use crate::tabla::mapa_de;

verus! {

/// Rechazos posibles de las dos operaciones.
#[derive(Clone, Copy, Debug, PartialEq, Eq, Structural)]
pub enum Error {
    NombreMuyLargo,
    NombreMuyCorto,
    /// El emisor quiso apoyar un proyecto con más fondos de los que la
    /// transferencia custodial acepta mover.
    FondosInsuficientes,
    /// El emisor quiso apoyar un proyecto inexistente.
    ProyectoNoExiste,
    /// El emisor quiso registrar un proyecto ya existente.
    ProyectoYaExiste,
    /// La cantidad aportada debe ser mayor a cero.
    CantidadDebeSerMayorACero,
}

/// Aviso que la operación lograda entrega al anfitrión para su emisión.
#[derive(Debug)]
pub enum Event {
    ProyectoCreado { quien: u64, nombre: NombreProyecto },
    ProyectoApoyado { nombre: NombreProyecto, cantidad: u64 },
}

/// Nombre de proyecto en su representación acotada: solo se construye a
/// partir de bytes cuyo largo ya fue validado.
#[derive(Debug)]
pub struct NombreProyecto {
    bytes: Vec<u8>,
}

impl NombreProyecto {
    /// Los bytes del nombre.
    pub closed spec fn vista(self) -> Seq<u8> {
        self.bytes@
    }

    /// El largo del nombre cae dentro de las cotas dadas.
    pub open spec fn acotado(self, minimo: u32, maximo: u32) -> bool {
        minimo <= self.vista().len() <= maximo
    }

    /// Conversión a la representación acotada; solo admisible una vez
    /// validado el largo, y entonces no puede fallar.
    pub fn desde_validado(bytes: Vec<u8>, minimo: u32, maximo: u32) -> (r: NombreProyecto)
        requires
            minimo <= bytes@.len() <= maximo,
        ensures
            r.vista() == bytes@,
            r.acotado(minimo, maximo),
    {
        NombreProyecto { bytes }
    }

    /// Copia del nombre con los mismos bytes.
    pub fn duplicar(&self) -> (r: NombreProyecto)
        ensures
            r.vista() == self.vista(),
    {
        NombreProyecto { bytes: copiar_bytes(&self.bytes) }
    }

    /// Los bytes del nombre, para quien lo consulta.
    pub fn como_bytes(&self) -> (r: &Vec<u8>)
        ensures
            r@ == self.vista(),
    {
        &self.bytes
    }

    /// Compara el nombre con una secuencia cruda de bytes.
    pub fn coincide(&self, otros: &Vec<u8>) -> (r: bool)
        ensures
            r == (self.vista() == otros@),
    {
        bytes_iguales(&self.bytes, otros)
    }
}

/// Entrada del libro: un proyecto y su saldo acumulado.
struct Proyecto {
    nombre: NombreProyecto,
    saldo: u64,
}

/// Cuenta custodial que denota un identificador de módulo de ocho bytes,
/// leído como entero de ocho bytes en orden de menor a mayor peso.
pub open spec fn cuenta_de_modulo(id: Seq<u8>) -> u64
    recommends
        id.len() == 8,
{
    (id[0] + id[1] * 0x100 + id[2] * 0x1_0000 + id[3] * 0x100_0000 + id[4] * 0x1_0000_0000
        + id[5] * 0x100_0000_0000 + id[6] * 0x1_0000_0000_0000 + id[7]
        * 0x100_0000_0000_0000) as u64
}

/// Deriva la cuenta custodial del identificador del módulo; regla pura y
/// determinista, recomputable por cualquier auditor.
pub fn derivar_cuenta(id: &[u8; 8]) -> (r: u64)
    ensures
        r == cuenta_de_modulo(id@),
{
    (id[0] as u64) + (id[1] as u64) * 0x100 + (id[2] as u64) * 0x1_0000 + (id[3] as u64)
        * 0x100_0000 + (id[4] as u64) * 0x1_0000_0000 + (id[5] as u64) * 0x100_0000_0000 + (
    id[6] as u64) * 0x1_0000_0000_0000 + (id[7] as u64) * 0x100_0000_0000_0000
}

/// El registro de proyectos con su configuración: cotas del largo del
/// nombre y cuenta custodial derivada del identificador del módulo.
pub struct Pallet {
    largo_minimo: u32,
    largo_maximo: u32,
    tesoro: u64,
    proyectos: Vec<Proyecto>,
}

impl Pallet {
    /// Los pares nombre-saldo del libro, en orden de creación.
    closed spec fn pares(self) -> Seq<(Seq<u8>, u64)> {
        self.proyectos@.map_values(|p: Proyecto| (p.nombre.vista(), p.saldo))
    }

    /// El libro mayor: de cada nombre creado, su saldo acumulado.
    pub closed spec fn libro(self) -> Map<Seq<u8>, u64> {
        mapa_de(self.pares())
    }

    /// Cota inferior configurada del largo del nombre.
    pub closed spec fn largo_minimo(self) -> u32 {
        self.largo_minimo
    }

    /// Cota superior configurada del largo del nombre.
    pub closed spec fn largo_maximo(self) -> u32 {
        self.largo_maximo
    }

    /// La cuenta custodial que recibe todos los aportes.
    pub closed spec fn tesoro(self) -> u64 {
        self.tesoro
    }

    /// Cotas positivas y ordenadas, nombres únicos y todos dentro de las
    /// cotas.
    pub closed spec fn wf(self) -> bool {
        &&& 1 <= self.largo_minimo <= self.largo_maximo
        &&& claves_unicas(self.pares())
        &&& forall|i: int|
            0 <= i < self.proyectos@.len() ==> self.largo_minimo <= (
            #[trigger] self.proyectos@[i]).nombre.vista().len() <= self.largo_maximo
    }

    /// Ambos estados comparten la configuración.
    pub open spec fn misma_configuracion(self, otro: Pallet) -> bool {
        &&& self.largo_minimo() == otro.largo_minimo()
        &&& self.largo_maximo() == otro.largo_maximo()
        &&& self.tesoro() == otro.tesoro()
    }

    /// Saldo registrado de un nombre; cero si nunca fue creado.
    pub open spec fn saldo_registrado(self, nombre: Seq<u8>) -> u64 {
        if self.libro().contains_key(nombre) {
            self.libro()[nombre]
        } else {
            0
        }
    }

    /// Ningún saldo registrado excede los fondos custodiados: el libro
    /// nunca sobrestima lo que la cuenta custodial de veras guarda.
    pub open spec fn cubierto_por(self, cuentas: Cuentas) -> bool {
        forall|k: Seq<u8>| #[trigger]
            self.libro().contains_key(k) ==> self.libro()[k] <= cuentas.saldo_o_cero(
                self.tesoro(),
            )
    }

    /// Rechazo que `crear_proyecto` devuelve ante estos insumos, si alguno;
    /// gana la primera validación que falla.
    pub open spec fn error_de_crear(self, nombre: Seq<u8>) -> Option<Error> {
        if nombre.len() < self.largo_minimo() {
            Some(Error::NombreMuyCorto)
        } else if nombre.len() > self.largo_maximo() {
            Some(Error::NombreMuyLargo)
        } else if self.libro().contains_key(nombre) {
            Some(Error::ProyectoYaExiste)
        } else {
            None
        }
    }

    /// Rechazo que `apoyar_proyecto` devuelve ante estos insumos, si
    /// alguno; toda causa de rechazo de la transferencia custodial se
    /// informa como `FondosInsuficientes`.
    pub open spec fn error_de_apoyo(
        self,
        cuentas: Cuentas,
        quien: u64,
        nombre: Seq<u8>,
        cantidad: u64,
    ) -> Option<Error> {
        if !self.libro().contains_key(nombre) {
            Some(Error::ProyectoNoExiste)
        } else if cantidad == 0 {
            Some(Error::CantidadDebeSerMayorACero)
        } else if !cuentas.transferencia_posible(quien, self.tesoro(), cantidad) {
            Some(Error::FondosInsuficientes)
        } else {
            None
        }
    }

    /// Registro sin proyectos, con las cotas dadas y la cuenta custodial
    /// derivada del identificador del módulo.
    pub fn nuevo(largo_minimo: u32, largo_maximo: u32, id_modulo: &[u8; 8]) -> (r: Pallet)
        requires
            1 <= largo_minimo <= largo_maximo,
        ensures
            r.wf(),
            r.largo_minimo() == largo_minimo,
            r.largo_maximo() == largo_maximo,
            r.tesoro() == cuenta_de_modulo(id_modulo@),
            r.libro() == Map::<Seq<u8>, u64>::empty(),
    {
        let tesoro = derivar_cuenta(id_modulo);
        let r = Pallet { largo_minimo, largo_maximo, tesoro, proyectos: Vec::new() };
        proof {
            assert(r.pares() =~= Seq::<(Seq<u8>, u64)>::empty());
        }
        r
    }

    /// Crea un proyecto: valida el largo del nombre, lo convierte a su
    /// representación acotada, exige que el nombre sea nuevo y lo asienta
    /// con saldo cero. Ningún rechazo muta el libro; ningún caso toca
    /// saldo monetario alguno.
    pub fn crear_proyecto(&mut self, quien: u64, nombre: Vec<u8>) -> (r: Result<Event, Error>)
        requires
            old(self).wf(),
        ensures
            final(self).wf(),
            final(self).misma_configuracion(*old(self)),
            match old(self).error_de_crear(nombre@) {
                Some(e) => r == Err::<Event, Error>(e) && *final(self) == *old(self),
                None => {
                    &&& (r matches Ok(Event::ProyectoCreado { quien: q, nombre: n }) && q == quien
                        && n.vista() == nombre@)
                    &&& final(self).libro() == old(self).libro().insert(nombre@, 0u64)
                },
            },
    {
        if nombre.len() < self.largo_minimo as usize {
            return Err(Error::NombreMuyCorto);
        }
        if nombre.len() > self.largo_maximo as usize {
            return Err(Error::NombreMuyLargo);
        }
        let existe = indice_de(&self.proyectos, &nombre);
        if let Some(i) = existe {
            proof {
                lema_valor(self.pares(), i as int);
            }
            return Err(Error::ProyectoYaExiste);
        }
        proof {
            lema_dominio(self.pares(), nombre@);
        }
        let acotado = NombreProyecto::desde_validado(nombre, self.largo_minimo, self.largo_maximo);
        let ghost antes = self.pares();
        let copia = acotado.duplicar();
        self.proyectos.push(Proyecto { nombre: copia, saldo: 0 });
        proof {
            assert(self.pares() =~= antes.push((acotado.vista(), 0u64)));
            lema_agregar(antes, acotado.vista(), 0u64);
            assert(forall|n: int| 0 <= n < antes.len() ==> #[trigger] self.pares()[n] == antes[n]);
            assert(claves_unicas(self.pares()));
        }
        Ok(Event::ProyectoCreado { quien, nombre: acotado })
    }

    /// Apoya un proyecto: exige que exista y que la cantidad sea positiva,
    /// mueve los fondos del emisor a la cuenta custodial bajo la política
    /// "keep-alive", y solo si la transferencia procede suma la cantidad al
    /// saldo del proyecto. Ningún rechazo muta libro ni saldos; el libro
    /// nunca queda sobrestimando los fondos custodiados.
    pub fn apoyar_proyecto(
        &mut self,
        cuentas: &mut Cuentas,
        quien: u64,
        nombre: Vec<u8>,
        cantidad: u64,
    ) -> (r: Result<Event, Error>)
        requires
            old(self).wf(),
            old(cuentas).wf(),
            nombre@.len() <= old(self).largo_maximo(),
            old(self).cubierto_por(*old(cuentas)),
        ensures
            final(self).wf(),
            final(cuentas).wf(),
            final(self).misma_configuracion(*old(self)),
            final(cuentas).deposito_existencial() == old(cuentas).deposito_existencial(),
            final(self).cubierto_por(*final(cuentas)),
            match old(self).error_de_apoyo(*old(cuentas), quien, nombre@, cantidad) {
                Some(e) => r == Err::<Event, Error>(e) && *final(self) == *old(self)
                    && *final(cuentas) == *old(cuentas),
                None => {
                    &&& (r matches Ok(Event::ProyectoApoyado { nombre: n, cantidad: c })
                        && n.vista() == nombre@ && c == cantidad)
                    &&& old(self).libro()[nombre@] + cantidad <= u64::MAX
                    &&& final(self).libro() == old(self).libro().insert(
                        nombre@,
                        (old(self).libro()[nombre@] + cantidad) as u64,
                    )
                    &&& final(cuentas).saldos() == old(cuentas).saldos().insert(
                        quien,
                        (old(cuentas).saldos()[quien] - cantidad) as u64,
                    ).insert(
                        old(self).tesoro(),
                        (old(cuentas).saldos()[old(self).tesoro()] + cantidad) as u64,
                    )
                },
            },
    {
        let existe = indice_de(&self.proyectos, &nombre);
        let i = match existe {
            None => {
                proof {
                    lema_dominio(self.pares(), nombre@);
                }
                return Err(Error::ProyectoNoExiste);
            },
            Some(i) => i,
        };
        proof {
            lema_valor(self.pares(), i as int);
        }
        if cantidad == 0 {
            return Err(Error::CantidadDebeSerMayorACero);
        }
        let exito = cuentas.transferir(quien, self.tesoro, cantidad);
        if !exito {
            return Err(Error::FondosInsuficientes);
        }
        let saldo = self.proyectos[i].saldo;
        let ghost antes = self.pares();
        let nuevo = saldo + cantidad;
        self.proyectos[i].saldo = nuevo;
        proof {
            assert(self.pares() =~= antes.update(i as int, (nombre@, nuevo)));
            lema_actualizar(antes, i as int, nuevo);
            assert(forall|n: int|
                0 <= n < antes.len() && n != i ==> #[trigger] self.pares()[n] == antes[n]);
            assert(claves_unicas(self.pares()));
            assert forall|k: Seq<u8>| #[trigger]
                self.libro().contains_key(k) implies self.libro()[k] <= cuentas.saldo_o_cero(
                self.tesoro(),
            ) by {
                if k != nombre@ {
                    assert(old(self).libro().contains_key(k));
                }
            }
        }
        let acotado = NombreProyecto::desde_validado(nombre, self.largo_minimo, self.largo_maximo);
        Ok(Event::ProyectoApoyado { nombre: acotado, cantidad })
    }

    /// Hay un proyecto asentado bajo este nombre.
    pub fn contiene_proyecto(&self, nombre: &Vec<u8>) -> (r: bool)
        requires
            self.wf(),
        ensures
            r == self.libro().contains_key(nombre@),
    {
        let existe = indice_de(&self.proyectos, nombre);
        match existe {
            Some(i) => {
                proof {
                    lema_valor(self.pares(), i as int);
                }
                true
            },
            None => {
                proof {
                    lema_dominio(self.pares(), nombre@);
                }
                false
            },
        }
    }

    /// Saldo consultable de un nombre; cero si nunca fue creado.
    pub fn saldo_proyecto(&self, nombre: &Vec<u8>) -> (r: u64)
        requires
            self.wf(),
        ensures
            r == self.saldo_registrado(nombre@),
    {
        let existe = indice_de(&self.proyectos, nombre);
        match existe {
            Some(i) => {
                proof {
                    lema_valor(self.pares(), i as int);
                }
                self.proyectos[i].saldo
            },
            None => {
                proof {
                    lema_dominio(self.pares(), nombre@);
                }
                0
            },
        }
    }

    /// La cuenta custodial configurada.
    pub fn cuenta_tesoreria(&self) -> (r: u64)
        ensures
            r == self.tesoro(),
    {
        self.tesoro
    }
}

/// Ley: un nombre con largo entre las cotas y aún no asentado se crea
/// exactamente una vez: la primera creación procede, y toda segunda
/// creación del mismo nombre — venga del emisor que venga — se rechaza con
/// `ProyectoYaExiste`.
pub proof fn lema_crear_exactamente_una_vez(antes: Pallet, despues: Pallet, nombre: Seq<u8>)
    requires
        antes.largo_minimo() <= nombre.len() <= antes.largo_maximo(),
        !antes.libro().contains_key(nombre),
        despues.misma_configuracion(antes),
        despues.libro() == antes.libro().insert(nombre, 0u64),
    ensures
        antes.error_de_crear(nombre) is None,
        despues.error_de_crear(nombre) == Some(Error::ProyectoYaExiste),
{
}

/// Ley: crear un proyecto y lograr un primer apoyo de `cantidad` deja su
/// saldo exactamente en `cantidad`.
pub proof fn lema_crear_luego_apoyar(
    antes: Pallet,
    creado: Pallet,
    apoyado: Pallet,
    nombre: Seq<u8>,
    cantidad: u64,
)
    requires
        !antes.libro().contains_key(nombre),
        creado.libro() == antes.libro().insert(nombre, 0u64),
        apoyado.libro() == creado.libro().insert(
            nombre,
            (creado.libro()[nombre] + cantidad) as u64,
        ),
    ensures
        apoyado.libro()[nombre] == cantidad,
{
}

/// Ley: dos apoyos logrados sobre el mismo proyecto se acumulan, y el
/// orden de los montos no cambia el saldo final.
pub proof fn lema_apoyos_se_acumulan(
    antes: Pallet,
    primero: Pallet,
    segundo: Pallet,
    nombre: Seq<u8>,
    a: u64,
    b: u64,
)
    requires
        antes.libro().contains_key(nombre),
        antes.libro()[nombre] + a + b <= u64::MAX,
        primero.libro() == antes.libro().insert(nombre, (antes.libro()[nombre] + a) as u64),
        segundo.libro() == primero.libro().insert(
            nombre,
            (primero.libro()[nombre] + b) as u64,
        ),
    ensures
        segundo.libro()[nombre] == antes.libro()[nombre] + a + b,
        segundo.libro()[nombre] == antes.libro()[nombre] + b + a,
{
}

/// Ley: ninguna operación del núcleo borra un proyecto ni reduce un saldo
/// registrado. Crear asienta cero donde nada había y apoyar solo suma, y
/// ambas efectúan el mismo asiento `insert(nombre, saldo_registrado +
/// cantidad)` — con cantidad cero en la creación —, así que ningún
/// proyecto vuelve a no existir y todo saldo crece o queda igual.
pub proof fn lema_saldos_nunca_bajan(
    antes: Pallet,
    despues: Pallet,
    nombre: Seq<u8>,
    cantidad: u64,
)
    requires
        antes.saldo_registrado(nombre) + cantidad <= u64::MAX,
        despues.libro() == antes.libro().insert(
            nombre,
            (antes.saldo_registrado(nombre) + cantidad) as u64,
        ),
    ensures
        forall|k: Seq<u8>|
            antes.libro().contains_key(k) ==> #[trigger] despues.libro().contains_key(k),
        forall|k: Seq<u8>| #[trigger] despues.saldo_registrado(k) >= antes.saldo_registrado(k),
{
    assert forall|k: Seq<u8>| #[trigger]
        despues.saldo_registrado(k) >= antes.saldo_registrado(k) by {
        if k != nombre && antes.libro().contains_key(k) {
            assert(despues.libro().contains_key(k));
        }
    }
}

/// Ley: crear un proyecto no toca saldo monetario alguno, así que conserva
/// la cobertura custodial frente a cualquier estado de cuentas.
pub proof fn lema_crear_conserva_cobertura(
    antes: Pallet,
    despues: Pallet,
    cuentas: Cuentas,
    nombre: Seq<u8>,
)
    requires
        antes.cubierto_por(cuentas),
        despues.misma_configuracion(antes),
        despues.libro() == antes.libro().insert(nombre, 0u64),
    ensures
        despues.cubierto_por(cuentas),
{
    assert forall|k: Seq<u8>| #[trigger]
        despues.libro().contains_key(k) implies despues.libro()[k] <= cuentas.saldo_o_cero(
        despues.tesoro(),
    ) by {
        if k != nombre {
            assert(antes.libro().contains_key(k));
        }
    }
}

/// Posición del proyecto con este nombre, si está asentado.
fn indice_de(proyectos: &Vec<Proyecto>, nombre: &Vec<u8>) -> (r: Option<usize>)
    ensures
        match r {
            Some(i) => i < proyectos@.len() && (proyectos@[i as int]).nombre.vista() == nombre@,
            None => forall|n: int|
                0 <= n < proyectos@.len() ==> (#[trigger] proyectos@[n]).nombre.vista()
                    != nombre@,
        },
{
    let mut i: usize = 0;
    while i < proyectos.len()
        invariant
            i <= proyectos@.len(),
            forall|n: int| 0 <= n < i ==> (#[trigger] proyectos@[n]).nombre.vista() != nombre@,
        decreases proyectos@.len() - i,
    {
        if proyectos[i].nombre.coincide(nombre) {
            return Some(i);
        }
        i += 1;
    }
    None
}

/// Copia verificada de una secuencia de bytes.
fn copiar_bytes(v: &Vec<u8>) -> (r: Vec<u8>)
    ensures
        r@ == v@,
{
    let mut r: Vec<u8> = Vec::new();
    let mut i: usize = 0;
    while i < v.len()
        invariant
            i <= v@.len(),
            r@ == v@.subrange(0, i as int),
        decreases v@.len() - i,
    {
        r.push(v[i]);
        i += 1;
        proof {
            assert(r@ =~= v@.subrange(0, i as int));
        }
    }
    proof {
        assert(r@ =~= v@);
    }
    r
}

/// Igualdad verificada de dos secuencias de bytes.
fn bytes_iguales(a: &Vec<u8>, b: &Vec<u8>) -> (r: bool)
    ensures
        r == (a@ == b@),
{
    if a.len() != b.len() {
        return false;
    }
    let mut i: usize = 0;
    while i < a.len()
        invariant
            i <= a@.len(),
            a@.len() == b@.len(),
            forall|n: int| 0 <= n < i ==> a@[n] == b@[n],
        decreases a@.len() - i,
    {
        if a[i] != b[i] {
            return false;
        }
        i += 1;
    }
    proof {
        assert(a@ =~= b@);
    }
    true
}

} // verus!
