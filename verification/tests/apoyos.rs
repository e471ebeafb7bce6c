//! Pruebas del apoyo a proyectos y de la transferencia custodial.

use crowdfund::cuentas::Cuentas;
use crowdfund::pallet::Error;
use crowdfund::pallet::Event;
use crowdfund::pallet::Pallet;

const DEPOSITO_EXISTENCIAL: u64 = 100;

fn pallet_de_prueba() -> Pallet {
    Pallet::nuevo(4, 24, b"py/crwd_")
}

/// Cuentas con la custodial ya viva, como el módulo lo supone.
fn cuentas_de_prueba(pallet: &Pallet) -> Cuentas {
    let mut cuentas = Cuentas::nueva(DEPOSITO_EXISTENCIAL);
    assert!(cuentas.abrir(pallet.cuenta_tesoreria(), DEPOSITO_EXISTENCIAL));
    cuentas
}

#[test]
fn apoyar_proyecto_funciona() {
    let mut pallet = pallet_de_prueba();
    let mut cuentas = cuentas_de_prueba(&pallet);
    assert!(cuentas.abrir(2, 10_000));
    let nombre_proyecto = b"Mi proyecto".to_vec();
    assert!(pallet.crear_proyecto(1, nombre_proyecto.clone()).is_ok());
    assert!(pallet.apoyar_proyecto(&mut cuentas, 2, nombre_proyecto.clone(), 500).is_ok());
    assert_eq!(pallet.saldo_proyecto(&nombre_proyecto), 500);
}

#[test]
fn evento_cantidad_debe_ser_mayor_a_cero_funciona() {
    let mut pallet = pallet_de_prueba();
    let mut cuentas = cuentas_de_prueba(&pallet);
    let nombre = b"Mi proyecto".to_vec();
    assert!(pallet.crear_proyecto(1, nombre.clone()).is_ok());

    assert!(matches!(
        pallet.apoyar_proyecto(&mut cuentas, 1, nombre.clone(), 0),
        Err(Error::CantidadDebeSerMayorACero)
    ));
    assert!(matches!(
        pallet.apoyar_proyecto(&mut cuentas, 2, nombre.clone(), 0),
        Err(Error::CantidadDebeSerMayorACero)
    ));
}

#[test]
fn apoyar_proyecto_inexistente_falla() {
    let mut pallet = pallet_de_prueba();
    let mut cuentas = cuentas_de_prueba(&pallet);
    assert!(cuentas.abrir(2, 10_000));
    let ausente = b"No existo".to_vec();
    // Sea cual sea la cantidad — aun cero — el rechazo es el mismo.
    assert!(matches!(
        pallet.apoyar_proyecto(&mut cuentas, 2, ausente.clone(), 0),
        Err(Error::ProyectoNoExiste)
    ));
    assert!(matches!(
        pallet.apoyar_proyecto(&mut cuentas, 2, ausente.clone(), 1),
        Err(Error::ProyectoNoExiste)
    ));
    assert!(matches!(
        pallet.apoyar_proyecto(&mut cuentas, 2, ausente.clone(), u64::MAX),
        Err(Error::ProyectoNoExiste)
    ));
}

#[test]
fn apoyos_sucesivos_se_acumulan() {
    let mut pallet = pallet_de_prueba();
    let mut cuentas = cuentas_de_prueba(&pallet);
    assert!(cuentas.abrir(2, 10_000));
    assert!(cuentas.abrir(3, 10_000));
    let nombre = b"Mi proyecto".to_vec();
    assert!(pallet.crear_proyecto(1, nombre.clone()).is_ok());
    assert!(pallet.apoyar_proyecto(&mut cuentas, 2, nombre.clone(), 500).is_ok());
    assert!(pallet.apoyar_proyecto(&mut cuentas, 3, nombre.clone(), 300).is_ok());
    assert_eq!(pallet.saldo_proyecto(&nombre), 800);

    // En el orden inverso los montos suman lo mismo.
    let otro = b"Otro proyecto".to_vec();
    assert!(pallet.crear_proyecto(1, otro.clone()).is_ok());
    assert!(pallet.apoyar_proyecto(&mut cuentas, 3, otro.clone(), 300).is_ok());
    assert!(pallet.apoyar_proyecto(&mut cuentas, 2, otro.clone(), 500).is_ok());
    assert_eq!(pallet.saldo_proyecto(&otro), 800);
}

#[test]
fn apoyo_que_rompe_el_keep_alive_falla() {
    let mut pallet = pallet_de_prueba();
    let mut cuentas = cuentas_de_prueba(&pallet);
    assert!(cuentas.abrir(2, 600));
    let nombre = b"Mi proyecto".to_vec();
    assert!(pallet.crear_proyecto(1, nombre.clone()).is_ok());

    // 600 - 501 dejaría 99, bajo el depósito existencial de 100.
    assert!(matches!(
        pallet.apoyar_proyecto(&mut cuentas, 2, nombre.clone(), 501),
        Err(Error::FondosInsuficientes)
    ));
    assert_eq!(pallet.saldo_proyecto(&nombre), 0);
    assert_eq!(cuentas.saldo_de(2), 600);

    // 600 - 500 deja exactamente el depósito existencial: procede.
    assert!(pallet.apoyar_proyecto(&mut cuentas, 2, nombre.clone(), 500).is_ok());
    assert_eq!(pallet.saldo_proyecto(&nombre), 500);
    assert_eq!(cuentas.saldo_de(2), 100);
}

#[test]
fn apoyo_sin_fondos_suficientes_falla() {
    let mut pallet = pallet_de_prueba();
    let mut cuentas = cuentas_de_prueba(&pallet);
    assert!(cuentas.abrir(2, 600));
    let nombre = b"Mi proyecto".to_vec();
    assert!(pallet.crear_proyecto(1, nombre.clone()).is_ok());
    assert!(matches!(
        pallet.apoyar_proyecto(&mut cuentas, 2, nombre.clone(), 5_000),
        Err(Error::FondosInsuficientes)
    ));
    assert_eq!(pallet.saldo_proyecto(&nombre), 0);
    assert_eq!(cuentas.saldo_de(2), 600);
}

#[test]
fn apoyo_de_emisor_sin_cuenta_falla() {
    let mut pallet = pallet_de_prueba();
    let mut cuentas = cuentas_de_prueba(&pallet);
    let nombre = b"Mi proyecto".to_vec();
    assert!(pallet.crear_proyecto(1, nombre.clone()).is_ok());
    // Toda causa de rechazo de la transferencia se informa igual.
    assert!(matches!(
        pallet.apoyar_proyecto(&mut cuentas, 77, nombre.clone(), 500),
        Err(Error::FondosInsuficientes)
    ));
    assert_eq!(pallet.saldo_proyecto(&nombre), 0);
}

#[test]
fn apoyo_que_desbordaria_la_custodial_falla() {
    let mut pallet = pallet_de_prueba();
    let mut cuentas = Cuentas::nueva(DEPOSITO_EXISTENCIAL);
    assert!(cuentas.abrir(pallet.cuenta_tesoreria(), u64::MAX));
    assert!(cuentas.abrir(2, 10_000));
    let nombre = b"Mi proyecto".to_vec();
    assert!(pallet.crear_proyecto(1, nombre.clone()).is_ok());
    assert!(matches!(
        pallet.apoyar_proyecto(&mut cuentas, 2, nombre.clone(), 500),
        Err(Error::FondosInsuficientes)
    ));
    assert_eq!(pallet.saldo_proyecto(&nombre), 0);
    assert_eq!(cuentas.saldo_de(2), 10_000);
}

#[test]
fn apoyo_fallido_nunca_muta_nada() {
    let mut pallet = pallet_de_prueba();
    let mut cuentas = cuentas_de_prueba(&pallet);
    assert!(cuentas.abrir(2, 600));
    let nombre = b"Mi proyecto".to_vec();
    assert!(pallet.crear_proyecto(1, nombre.clone()).is_ok());
    assert!(pallet.apoyar_proyecto(&mut cuentas, 2, nombre.clone(), 200).is_ok());

    let saldo_proyecto = pallet.saldo_proyecto(&nombre);
    let saldo_emisor = cuentas.saldo_de(2);
    let saldo_custodial = cuentas.saldo_de(pallet.cuenta_tesoreria());

    assert!(pallet.apoyar_proyecto(&mut cuentas, 2, b"No existo".to_vec(), 10).is_err());
    assert!(pallet.apoyar_proyecto(&mut cuentas, 2, nombre.clone(), 0).is_err());
    assert!(pallet.apoyar_proyecto(&mut cuentas, 2, nombre.clone(), 10_000).is_err());

    assert_eq!(pallet.saldo_proyecto(&nombre), saldo_proyecto);
    assert_eq!(cuentas.saldo_de(2), saldo_emisor);
    assert_eq!(cuentas.saldo_de(pallet.cuenta_tesoreria()), saldo_custodial);
}

#[test]
fn apoyar_entrega_el_aviso_con_nombre_y_cantidad() {
    let mut pallet = pallet_de_prueba();
    let mut cuentas = cuentas_de_prueba(&pallet);
    assert!(cuentas.abrir(2, 10_000));
    let nombre = b"Mi proyecto".to_vec();
    assert!(pallet.crear_proyecto(1, nombre.clone()).is_ok());
    match pallet.apoyar_proyecto(&mut cuentas, 2, nombre.clone(), 500) {
        Ok(Event::ProyectoApoyado { nombre: acotado, cantidad }) => {
            assert_eq!(acotado.como_bytes(), &nombre);
            assert_eq!(cantidad, 500);
        },
        otro => panic!("aviso inesperado: {:?}", otro),
    }
}

#[test]
fn el_apoyo_mueve_los_fondos_a_la_custodial() {
    let mut pallet = pallet_de_prueba();
    let mut cuentas = cuentas_de_prueba(&pallet);
    assert!(cuentas.abrir(2, 10_000));
    let nombre = b"Mi proyecto".to_vec();
    assert!(pallet.crear_proyecto(1, nombre.clone()).is_ok());
    assert!(pallet.apoyar_proyecto(&mut cuentas, 2, nombre.clone(), 500).is_ok());
    assert_eq!(cuentas.saldo_de(2), 9_500);
    assert_eq!(cuentas.saldo_de(pallet.cuenta_tesoreria()), DEPOSITO_EXISTENCIAL + 500);
}

#[test]
fn abrir_cuentas_respeta_el_deposito_existencial() {
    let mut cuentas = Cuentas::nueva(DEPOSITO_EXISTENCIAL);
    assert!(!cuentas.abrir(1, DEPOSITO_EXISTENCIAL - 1));
    assert!(cuentas.abrir(1, DEPOSITO_EXISTENCIAL));
    assert!(!cuentas.abrir(1, 10_000));
    assert_eq!(cuentas.saldo_de(1), DEPOSITO_EXISTENCIAL);
    assert_eq!(cuentas.saldo_de(2), 0);
}

#[test]
fn transferir_a_la_misma_cuenta_falla() {
    let mut cuentas = Cuentas::nueva(DEPOSITO_EXISTENCIAL);
    assert!(cuentas.abrir(1, 10_000));
    assert!(!cuentas.transferir(1, 1, 50));
    assert_eq!(cuentas.saldo_de(1), 10_000);
}
