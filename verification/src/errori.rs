//! Errori del modello e della codifica testuale della rete.
use vstd::prelude::*;

verus! {

/// Errore segnalato dalla costruzione o dalla lettura di una rete.
///
/// Un guasto di lettura o scrittura su disco resta fuori: qui compaiono solo
/// i difetti del testo e delle dimensioni.
#[derive(Clone, Copy, Debug, PartialEq, Eq, Structural)]
pub enum ErroreRete {
    /// Un token che doveva essere un numero in virgola mobile non lo e'.
    TokenNonNumerico,
    /// Una riga di intestazione manca del valore atteso.
    IntestazioneIncompleta,
    /// La riga della topologia non elenca interi validi.
    TopologiaNonValida,
    /// Un blocco di pesi si chiude senza alcuna riga.
    BloccoVuoto,
    /// Le righe di un blocco di pesi non hanno tutte la stessa lunghezza.
    RigheIrregolari,
    /// Nel testo non compare alcuna funzione di attivazione.
    AttivazioniMancanti,
    /// Le matrici dei pesi non combaciano con la topologia dichiarata.
    DimensioniIncoerenti,
    /// La rete richiede almeno due strati, ingresso e uscita compresi.
    StratiInsufficienti,
}

} // verus!
