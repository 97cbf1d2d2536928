# learning_core

The verified core of a knowledge-graph learning service. Learners enter a topic, move
through a graph of concept nodes along five kinds of movement (deeper, broader, foundation,
practice, inspire), back up, leave notes, and ask an AI agent to investigate and propose new
nodes with learning resources. A second service builds chapter-by-chapter curricula from a
model-written outline.

## Layout

- `src/` — the library, verified with Verus:
  - `domains/graph` — movements, edge weights, the visible subgraph, the learner's assembled
    view of a topic, traversal and back-up decisions, store statements;
  - `domains/ai` — the investigation agent's prompts, reading its answers (JSON arrays,
    YouTube ids), proposal depths, the learner's path, resource merging, and the agent's tools;
  - `domains/auth` — admin identifiers, phone hashes, token claims, one-time-code test mode;
  - `curriculum` — reading outlines out of model answers, stored rows, workflow steps;
  - `config`, `file_config`, `prompt_registry`, `types`, `api`, `openai`, `web`, `text`, `ids`.
- `tests/` — tests of the library on concrete values.
- `app/` — the service around the library: the HTTP and GraphQL endpoints, the graph and
  relational stores, the model and search APIs, and serialisation.
