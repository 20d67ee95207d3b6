//! Rete neurale multistrato con pesi in notazione testuale esatta:
//! modello dei dati, regola ciclica di scelta delle attivazioni e
//! codifica testuale di salvataggio e caricamento.
pub mod andata_ritorno;
pub mod attivazione;
pub mod codec;
pub mod dividi;
pub mod errori;
pub mod indici;
pub mod rete;
pub mod testo;
