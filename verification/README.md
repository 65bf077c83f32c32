# raft_witness

The parts of a Raft implementation that deal with witnesses, verified with Verus.

A witness is a voter whose state lives in external storage. It takes part in elections, and a leader
contacts it only to complete a quorum. A cluster of two regular voters and a witness so survives the
loss of one voter.

| Module | What it holds |
| --- | --- |
| `witness` | How a witness answers appends, heartbeats and vote requests, and what it persists |
| `tracker` | Membership, the progress of nodes, votes, and the replication sets of a leader |
| `quorum` | Majority and joint configurations: elections, committed indexes |
| `eraftpb`, `confchange` | Messages, records and membership changes |
| `sets` | Hash sets of node identifiers |

Every function states what it returns or changes over mathematical views of its types. Properties
that span calls are proved in the `laws` modules, among them:

- a witness votes for one candidate in a term at most, whatever messages come in between;
- entries that a witness has received bind its vote before they are committed;
- two quorums of a configuration have a voter in common, and every quorum holds a voter that has
  acknowledged what is committed;
- a message that is delivered to a witness twice in a row changes nothing the second time;
- an adjustment swaps one member of a replication set; it keeps all active members but possibly the
  witness, and the leader too where it is named and is not the witness;
- when the voter whose place the witness took is back and all nodes are active, an adjustment makes
  the replication set again what it was.

Two functions are trusted: `Itertools::sorted`, and `HashMap::iter_mut` of the standard library.
